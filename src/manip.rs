//! The rewrites of the two runtime classes: the root throwable gains a parameter store,
//! a native fill method and a native trace accessor; the stack-trace element gains a
//! parameter field and a native `toString`.
use vstd::prelude::*;
use crate::blockreader::DecodeError;
use crate::bytes::be32;
use crate::classfile::{Attribute, Classfile, Constant, Method, is_first_utf8, lemma_first_utf8_unique, utf8_index};
use crate::encode::enc_class;
use crate::instruction::Instruction;
use crate::reader::ClassReader;
use crate::rewriter::{
    RewriteError, add_field, add_method, code_attribute_index, extends, find_method, method_is,
    rename_method, renames, has_method, lemma_names_ref_unique, lemma_first_utf8_extends, names_ref, lemma_names_ref_extends,
};
use crate::symbols;
use crate::writer::ClassWriter;

verus! {

/// `private`
pub const ACC_PRIVATE: u16 = 0x0002;
/// `public`
pub const ACC_PUBLIC: u16 = 0x0001;
/// `synchronized`
pub const ACC_SYNCHRONIZED: u16 = 0x0020;
/// `transient`
pub const ACC_TRANSIENT: u16 = 0x0080;
/// `native`
pub const ACC_NATIVE: u16 = 0x0100;
/// The operand stack the spliced fill method needs at least.
pub const SPLICE_MAX_STACK: u16 = 2;

/// The instructions of a code attribute.
pub open spec fn code_of(a: Attribute) -> Seq<Instruction> {
    match a {
        Attribute::Code { code, .. } => code@,
        _ => Seq::empty(),
    }
}

/// Why a class could not be transformed.
#[derive(Debug, Clone, Copy, PartialEq, Eq, Structural)]
pub enum TransformError {
    Decode(DecodeError),
    Rewrite(RewriteError),
}

/// Adds the transient `paramInfo` field of type `[Ljava/lang/Object;`.
pub fn add_param_info_field(cf: &mut Classfile)
    ensures
        extends(old(cf).constant_pool.constants@, final(cf).constant_pool.constants@),
        final(cf).fields@.len() == old(cf).fields@.len() + 1,
        final(cf).fields@.subrange(0, old(cf).fields@.len() as int) == old(cf).fields@,
        ({
            let f = final(cf).fields@[old(cf).fields@.len() as int];
            let cs = final(cf).constant_pool.constants@;
            &&& f.access_flags.flags == ACC_TRANSIENT
            &&& is_first_utf8(cs, symbols::spec_param_info(), f.name_index.idx as int)
            &&& is_first_utf8(cs, symbols::spec_object_array(), f.descriptor_index.idx as int)
        }),
        final(cf).methods@ == old(cf).methods@,
{
    add_field(cf, ACC_TRANSIENT, &symbols::param_info(), &symbols::object_array());
}

/// Adds the private transient `stackParams` field of type `[[Ljava/lang/Object;`.
pub fn add_stack_params_field(cf: &mut Classfile)
    ensures
        extends(old(cf).constant_pool.constants@, final(cf).constant_pool.constants@),
        final(cf).fields@.len() == old(cf).fields@.len() + 1,
        final(cf).fields@.subrange(0, old(cf).fields@.len() as int) == old(cf).fields@,
        ({
            let f = final(cf).fields@[old(cf).fields@.len() as int];
            let cs = final(cf).constant_pool.constants@;
            &&& f.access_flags.flags == ACC_PRIVATE | ACC_TRANSIENT
            &&& is_first_utf8(cs, symbols::spec_stack_params(), f.name_index.idx as int)
            &&& is_first_utf8(cs, symbols::spec_object_array_2d(), f.descriptor_index.idx as int)
        }),
        final(cf).methods@ == old(cf).methods@,
{
    add_field(cf, ACC_PRIVATE | ACC_TRANSIENT, &symbols::stack_params(), &symbols::object_array_2d());
}

/// Adds the private native `stackParamFillInStackTrace(Thread) -> Throwable`.
pub fn add_native_stack_params_method(cf: &mut Classfile)
    ensures
        extends(old(cf).constant_pool.constants@, final(cf).constant_pool.constants@),
        final(cf).methods@.len() == old(cf).methods@.len() + 1,
        final(cf).methods@.subrange(0, old(cf).methods@.len() as int) == old(cf).methods@,
        ({
            let m = final(cf).methods@[old(cf).methods@.len() as int];
            let cs = final(cf).constant_pool.constants@;
            &&& m.access_flags.flags == ACC_PRIVATE | ACC_NATIVE
            &&& is_first_utf8(cs, symbols::spec_sp_fill(), m.name_index.idx as int)
            &&& is_first_utf8(cs, symbols::spec_thread_to_throwable(), m.descriptor_index.idx as int)
            &&& m.attributes@.len() == 0
        }),
        final(cf).fields@ == old(cf).fields@,
{
    add_method(cf, ACC_PRIVATE | ACC_NATIVE, &symbols::sp_fill(), &symbols::thread_to_throwable(), Vec::new());
}

/// Renames `toString()` to `$$stack_param$$toString()` and adds a public native `toString()`.
pub fn replace_elem_to_string(cf: &mut Classfile) -> (r: Result<(), RewriteError>)
    ensures
        extends(old(cf).constant_pool.constants@, final(cf).constant_pool.constants@),
        r is Ok ==> final(cf).methods@.len() == old(cf).methods@.len() + 1 && ({
            let m = final(cf).methods@[old(cf).methods@.len() as int];
            let cs = final(cf).constant_pool.constants@;
            &&& m.access_flags.flags == ACC_PUBLIC | ACC_NATIVE
            &&& is_first_utf8(cs, symbols::spec_to_string(), m.name_index.idx as int)
            &&& is_first_utf8(cs, symbols::spec_ret_string(), m.descriptor_index.idx as int)
        }),
        r is Err ==> r == Err::<(), RewriteError>(RewriteError::MethodNotFound),
        r is Ok <==> has_method(old(cf).methods@, final(cf).constant_pool.constants@, symbols::spec_to_string(), symbols::spec_ret_string()),
        r is Ok ==> renames(old(cf).methods@, final(cf).methods@, final(cf).constant_pool.constants@,
            symbols::spec_to_string(), symbols::spec_ret_string(), symbols::spec_renamed_to_string()),
        final(cf).fields@ == old(cf).fields@,
{
    let ghost c0 = cf.constant_pool.constants@;
    match rename_method(cf, &symbols::to_string(), &symbols::ret_string(), &symbols::renamed_to_string()) {
        Ok(()) => {},
        Err(e) => {
            return Err(e);
        },
    }
    let ghost ms1 = cf.methods@;
    let ghost c1 = cf.constant_pool.constants@;
    proof {
        assert(renames(old(cf).methods@, cf.methods@, c1, symbols::spec_to_string(), symbols::spec_ret_string(), symbols::spec_renamed_to_string()));
    }
    add_method(cf, ACC_PUBLIC | ACC_NATIVE, &symbols::to_string(), &symbols::ret_string(), Vec::new());
    proof {
        lemma_extends_trans(c0, c1, cf.constant_pool.constants@);
    }
    proof {
        let c2 = cf.constant_pool.constants@;
        lemma_extends_trans(c0, c1, c2);
        lemma_first_utf8_extends(c1, c2, symbols::spec_to_string(), utf8_index(c1, symbols::spec_to_string()) as int);
        lemma_first_utf8_extends(c1, c2, symbols::spec_ret_string(), utf8_index(c1, symbols::spec_ret_string()) as int);
        lemma_first_utf8_extends(c1, c2, symbols::spec_renamed_to_string(), utf8_index(c1, symbols::spec_renamed_to_string()) as int);
        lemma_first_utf8_unique(c2, symbols::spec_to_string(), utf8_index(c1, symbols::spec_to_string()) as int);
        lemma_first_utf8_unique(c2, symbols::spec_ret_string(), utf8_index(c1, symbols::spec_ret_string()) as int);
        lemma_first_utf8_unique(c2, symbols::spec_renamed_to_string(), utf8_index(c1, symbols::spec_renamed_to_string()) as int);
        assert forall|j: int| 0 <= j < ms1.len() implies #[trigger] cf.methods@[j] == ms1[j] by {
            assert(cf.methods@.subrange(0, ms1.len() as int)[j] == cf.methods@[j]);
        }
        assert forall|j: int| 0 <= j < old(cf).methods@.len() implies #[trigger] cf.methods@[j] == ms1[j] && ms1[j] == ms1[j] by {
            assert(cf.methods@.subrange(0, ms1.len() as int)[j] == cf.methods@[j]);
        }
        if has_method(old(cf).methods@, c1, symbols::spec_to_string(), symbols::spec_ret_string()) {
            let w = choose|j: int| 0 <= j < old(cf).methods@.len() && (#[trigger] old(cf).methods@[j]).name_index.idx == utf8_index(c1, symbols::spec_to_string())
                && old(cf).methods@[j].descriptor_index.idx == utf8_index(c1, symbols::spec_ret_string());
            assert(old(cf).methods@[w].name_index.idx == utf8_index(c2, symbols::spec_to_string()));
        }
    }
    Ok(())
}

/// Renames `getOurStackTrace()` to `$$stack_param$$getOurStackTrace()` and adds a private
/// synchronized native `getOurStackTrace()` with the same descriptor.
pub fn replace_our_trace_method(cf: &mut Classfile) -> (r: Result<(), RewriteError>)
    ensures
        extends(old(cf).constant_pool.constants@, final(cf).constant_pool.constants@),
        r is Ok ==> final(cf).methods@.len() == old(cf).methods@.len() + 1 && ({
            let m = final(cf).methods@[old(cf).methods@.len() as int];
            let cs = final(cf).constant_pool.constants@;
            &&& m.access_flags.flags == ACC_PRIVATE | ACC_SYNCHRONIZED | ACC_NATIVE
            &&& is_first_utf8(cs, symbols::spec_get_our_trace(), m.name_index.idx as int)
            &&& is_first_utf8(cs, symbols::spec_ret_elements(), m.descriptor_index.idx as int)
        }),
        r is Err ==> r == Err::<(), RewriteError>(RewriteError::MethodNotFound),
        r is Ok <==> has_method(old(cf).methods@, final(cf).constant_pool.constants@, symbols::spec_get_our_trace(), symbols::spec_ret_elements()),
        r is Ok ==> renames(old(cf).methods@, final(cf).methods@, final(cf).constant_pool.constants@,
            symbols::spec_get_our_trace(), symbols::spec_ret_elements(), symbols::spec_renamed_get_our_trace()),
        final(cf).fields@ == old(cf).fields@,
        r is Ok ==> forall|j: int| 0 <= j < old(cf).methods@.len() ==> {
            &&& (#[trigger] final(cf).methods@[j]).access_flags == old(cf).methods@[j].access_flags
            &&& final(cf).methods@[j].descriptor_index == old(cf).methods@[j].descriptor_index
            &&& final(cf).methods@[j].attributes == old(cf).methods@[j].attributes
        },
{
    let ghost c0 = cf.constant_pool.constants@;
    match rename_method(cf, &symbols::get_our_trace(), &symbols::ret_elements(), &symbols::renamed_get_our_trace()) {
        Ok(()) => {},
        Err(e) => {
            return Err(e);
        },
    }
    let ghost ms1 = cf.methods@;
    let ghost c1 = cf.constant_pool.constants@;
    proof {
        assert(renames(old(cf).methods@, cf.methods@, c1, symbols::spec_get_our_trace(), symbols::spec_ret_elements(), symbols::spec_renamed_get_our_trace()));
    }
    let ghost ms1 = cf.methods@;
    proof {
        assert forall|j: int| 0 <= j < old(cf).methods@.len() implies {
            &&& (#[trigger] ms1[j]).access_flags == old(cf).methods@[j].access_flags
            &&& ms1[j].descriptor_index == old(cf).methods@[j].descriptor_index
            &&& ms1[j].attributes == old(cf).methods@[j].attributes
        } by {}
    }
    add_method(cf, ACC_PRIVATE | ACC_SYNCHRONIZED | ACC_NATIVE, &symbols::get_our_trace(), &symbols::ret_elements(), Vec::new());
    proof {
        lemma_extends_trans(c0, c1, cf.constant_pool.constants@);
    }
    proof {
        assert forall|j: int| 0 <= j < old(cf).methods@.len() implies cf.methods@[j] == ms1[j] by {
            assert(cf.methods@.subrange(0, ms1.len() as int)[j] == cf.methods@[j]);
        }
    }
    proof {
        let c2 = cf.constant_pool.constants@;
        lemma_extends_trans(c0, c1, c2);
        lemma_first_utf8_extends(c1, c2, symbols::spec_get_our_trace(), utf8_index(c1, symbols::spec_get_our_trace()) as int);
        lemma_first_utf8_extends(c1, c2, symbols::spec_ret_elements(), utf8_index(c1, symbols::spec_ret_elements()) as int);
        lemma_first_utf8_extends(c1, c2, symbols::spec_renamed_get_our_trace(), utf8_index(c1, symbols::spec_renamed_get_our_trace()) as int);
        lemma_first_utf8_unique(c2, symbols::spec_get_our_trace(), utf8_index(c1, symbols::spec_get_our_trace()) as int);
        lemma_first_utf8_unique(c2, symbols::spec_ret_elements(), utf8_index(c1, symbols::spec_ret_elements()) as int);
        lemma_first_utf8_unique(c2, symbols::spec_renamed_get_our_trace(), utf8_index(c1, symbols::spec_renamed_get_our_trace()) as int);
        assert forall|j: int| 0 <= j < ms1.len() implies #[trigger] cf.methods@[j] == ms1[j] by {
            assert(cf.methods@.subrange(0, ms1.len() as int)[j] == cf.methods@[j]);
        }
        assert forall|j: int| 0 <= j < old(cf).methods@.len() implies #[trigger] cf.methods@[j] == ms1[j] && ms1[j] == ms1[j] by {
            assert(cf.methods@.subrange(0, ms1.len() as int)[j] == cf.methods@[j]);
        }
        if has_method(old(cf).methods@, c1, symbols::spec_get_our_trace(), symbols::spec_ret_elements()) {
            let w = choose|j: int| 0 <= j < old(cf).methods@.len() && (#[trigger] old(cf).methods@[j]).name_index.idx == utf8_index(c1, symbols::spec_get_our_trace())
                && old(cf).methods@[j].descriptor_index.idx == utf8_index(c1, symbols::spec_ret_elements());
            assert(old(cf).methods@[w].name_index.idx == utf8_index(c2, symbols::spec_get_our_trace()));
        }
    }
    Ok(())
}

/// The first position of `invokespecial #target` in a code array, if any.
pub fn find_invokespecial(code: &Vec<Instruction>, target: u16) -> (r: Option<usize>)
    ensures
        r matches Some(p) ==> p < code@.len() && code@[p as int] == Instruction::INVOKESPECIAL(target)
            && forall|j: int| 0 <= j < p ==> code@[j] != Instruction::INVOKESPECIAL(target),
        r is None ==> forall|j: int| 0 <= j < code@.len() ==> code@[j] != Instruction::INVOKESPECIAL(target),
{
    let mut i: usize = 0;
    while i < code.len()
        invariant
            0 <= i <= code@.len(),
            forall|j: int| 0 <= j < i ==> code@[j] != Instruction::INVOKESPECIAL(target),
        decreases code@.len() - i,
    {
        match &code[i] {
            Instruction::INVOKESPECIAL(x) => {
                if *x == target {
                    return Some(i);
                }
            },
            _ => {},
        }
        i = i + 1;
    }
    None
}

/// In the code attribute `a`, puts `first` then `second` right after the instruction at
/// `position`, and raises the operand stack limit to at least two.
fn splice_code(a: Attribute, position: usize, first: Instruction, second: Instruction) -> (r: Attribute)
    requires
        a is Code,
        position < code_of(a).len(),
        position + 3 <= usize::MAX,
    ensures
        r is Code,
        code_of(r) == code_of(a).insert(position + 1, first).insert(position + 2, second),
        r->max_stack == if a->max_stack < SPLICE_MAX_STACK { SPLICE_MAX_STACK } else { a->max_stack },
        r->max_locals == a->max_locals,
        r->exception_table == a->exception_table,
        r->Code_attributes == a->Code_attributes,
{
    match a {
        Attribute::Code { max_stack, max_locals, mut code, exception_table, attributes } => {
            code.insert(position + 1, first);
            code.insert(position + 2, second);
            let max_stack = if max_stack < SPLICE_MAX_STACK { SPLICE_MAX_STACK } else { max_stack };
            Attribute::Code { max_stack, max_locals, code, exception_table, attributes }
        },
        _ => {
            proof {
                assert(false);
            }
            a
        },
    }
}

/// `new` is `old` with `invokestatic #t; invokespecial #s` put right after the
/// `invokespecial #n` at position `p` of the code attribute `a` of method `m`, the operand
/// stack limit raised to at least two, and every other method left as it was.
pub open spec fn spliced(old: Classfile, new: Classfile, m: int, a: int, p: int, t: u16, s: u16, n: u16) -> bool {
    &&& 0 <= m < old.methods@.len()
    &&& 0 <= a < old.methods@[m].attributes@.len()
    &&& old.methods@[m].attributes@[a] is Code
    &&& 0 <= p < code_of(old.methods@[m].attributes@[a]).len()
    &&& code_of(old.methods@[m].attributes@[a])[p] == Instruction::INVOKESPECIAL(n)
    &&& new.methods@.len() == old.methods@.len()
    &&& a < new.methods@[m].attributes@.len()
    &&& new.methods@[m].attributes@[a] is Code
    &&& code_of(new.methods@[m].attributes@[a]) == code_of(old.methods@[m].attributes@[a]).insert(p + 1, Instruction::INVOKESTATIC(t)).insert(p + 2, Instruction::INVOKESPECIAL(s))
    &&& new.methods@[m].attributes@[a]->max_stack == if old.methods@[m].attributes@[a]->max_stack < SPLICE_MAX_STACK {
            SPLICE_MAX_STACK
        } else {
            old.methods@[m].attributes@[a]->max_stack
        }
    &&& new.methods@[m].attributes@[a]->max_locals == old.methods@[m].attributes@[a]->max_locals
    &&& new.methods@[m].attributes@[a]->exception_table == old.methods@[m].attributes@[a]->exception_table
    &&& new.methods@[m].attributes@[a]->Code_attributes == old.methods@[m].attributes@[a]->Code_attributes
    &&& new.methods@[m].attributes@.len() == old.methods@[m].attributes@.len()
    &&& forall|j: int| 0 <= j < old.methods@[m].attributes@.len() && j != a ==> new.methods@[m].attributes@[j] == old.methods@[m].attributes@[j]
    &&& new.methods@[m].access_flags == old.methods@[m].access_flags
    &&& new.methods@[m].name_index == old.methods@[m].name_index
    &&& new.methods@[m].descriptor_index == old.methods@[m].descriptor_index
    &&& names_ref(new.constant_pool.constants@, symbols::spec_thread_class(), symbols::spec_current_thread(), symbols::spec_ret_thread(), t as int, false)
    &&& names_ref(new.constant_pool.constants@, symbols::spec_throwable_class(), symbols::spec_sp_fill(), symbols::spec_thread_to_throwable(), s as int, false)
    &&& names_ref(new.constant_pool.constants@, symbols::spec_throwable_class(), symbols::spec_fill(), symbols::spec_int_to_throwable(), n as int, false)
    &&& forall|j: int| 0 <= j < old.methods@.len() && j != m ==> new.methods@[j] == old.methods@[j]
}

/// `m` is the first method `fillInStackTrace()` returning a throwable.
pub open spec fn first_fill_method(ms: Seq<Method>, cs: Seq<Constant>, m: int) -> bool {
    let fm = utf8_index(cs, symbols::spec_fill()) as usize;
    let rt = utf8_index(cs, symbols::spec_ret_throwable()) as usize;
    &&& 0 <= m < ms.len()
    &&& method_is(ms, m, fm, rt)
    &&& forall|j: int| 0 <= j < m ==> !#[trigger] method_is(ms, j, fm, rt)
}

/// `a` is the first code attribute of `method`.
pub open spec fn first_code(method: Method, a: int) -> bool {
    &&& 0 <= a < method.attributes@.len()
    &&& method.attributes@[a] is Code
    &&& forall|j: int| 0 <= j < a ==> !(#[trigger] method.attributes@[j] is Code)
}

/// Where the splice goes: the first `invokespecial` of the native `fillInStackTrace(int)`
/// reference `n` in the first code attribute `a` of the first fill method `m`, at `p`.
pub open spec fn splice_point(ms: Seq<Method>, cs: Seq<Constant>, m: int, a: int, p: int, n: int) -> bool {
    &&& first_fill_method(ms, cs, m)
    &&& first_code(ms[m], a)
    &&& names_ref(cs, symbols::spec_throwable_class(), symbols::spec_fill(), symbols::spec_int_to_throwable(), n, false)
    &&& 0 <= n <= 0xffff
    &&& 0 <= p < code_of(ms[m].attributes@[a]).len()
    &&& code_of(ms[m].attributes@[a])[p] == Instruction::INVOKESPECIAL(n as u16)
    &&& forall|q: int| 0 <= q < p ==> code_of(ms[m].attributes@[a])[q] != Instruction::INVOKESPECIAL(n as u16)
    &&& p + 3 <= usize::MAX
}

/// The two references that the splice calls fit the 16-bit operand of an invoke.
pub open spec fn splice_refs_fit(cs: Seq<Constant>) -> bool {
    exists|t: int, s: int| 0 <= t <= 0xffff && 0 <= s <= 0xffff
        && #[trigger] names_ref(cs, symbols::spec_thread_class(), symbols::spec_current_thread(), symbols::spec_ret_thread(), t, false)
        && #[trigger] names_ref(cs, symbols::spec_throwable_class(), symbols::spec_sp_fill(), symbols::spec_thread_to_throwable(), s, false)
}

/// Puts `invokestatic #t; invokespecial #sf` after position `position` of the code
/// attribute `ai` of method `mi`.
fn apply_splice(cf: &mut Classfile, mi: usize, ai: usize, position: usize, t: u16, sf: u16, n: u16)
    requires
        mi < old(cf).methods@.len(),
        ai < old(cf).methods@[mi as int].attributes@.len(),
        old(cf).methods@[mi as int].attributes@[ai as int] is Code,
        position < code_of(old(cf).methods@[mi as int].attributes@[ai as int]).len(),
        position + 3 <= usize::MAX,
        code_of(old(cf).methods@[mi as int].attributes@[ai as int])[position as int] == Instruction::INVOKESPECIAL(n),
        names_ref(old(cf).constant_pool.constants@, symbols::spec_thread_class(), symbols::spec_current_thread(), symbols::spec_ret_thread(), t as int, false),
        names_ref(old(cf).constant_pool.constants@, symbols::spec_throwable_class(), symbols::spec_sp_fill(), symbols::spec_thread_to_throwable(), sf as int, false),
        names_ref(old(cf).constant_pool.constants@, symbols::spec_throwable_class(), symbols::spec_fill(), symbols::spec_int_to_throwable(), n as int, false),
    ensures
        spliced(*old(cf), *final(cf), mi as int, ai as int, position as int, t, sf, n),
        final(cf).constant_pool == old(cf).constant_pool,
        final(cf).fields == old(cf).fields,
{
    let ghost ms0 = cf.methods@;
    let mut method = cf.methods.remove(mi);
    let attribute = method.attributes.remove(ai);
    let new_attribute = splice_code(attribute, position, Instruction::INVOKESTATIC(t), Instruction::INVOKESPECIAL(sf));
    method.attributes.insert(ai, new_attribute);
    cf.methods.insert(mi, method);
    proof {
        assert(cf.methods@[mi as int].attributes@[ai as int] == new_attribute);
        assert forall|j: int| 0 <= j < ms0[mi as int].attributes@.len() && j != ai implies cf.methods@[mi as int].attributes@[j] == ms0[mi as int].attributes@[j] by {
            if j < ai {
                assert(cf.methods@[mi as int].attributes@[j] == ms0[mi as int].attributes@[j]);
            } else {
                assert(cf.methods@[mi as int].attributes@[j] == ms0[mi as int].attributes@[j]);
            }
        }
        assert forall|j: int| 0 <= j < ms0.len() && j != mi implies cf.methods@[j] == ms0[j] by {
            if j < mi {
                assert(cf.methods@[j] == ms0[j]);
            } else {
                assert(cf.methods@[j] == ms0[j]);
            }
        }
    }
}

/// In `fillInStackTrace()`, right after the `invokespecial` of the native
/// `fillInStackTrace(int)`, calls `Thread.currentThread()` and then the native
/// `stackParamFillInStackTrace(Thread)`. Nothing after the splice is relocated.
#[verifier::rlimit(100)]
#[verifier::spinoff_prover]
pub fn update_fill_method(cf: &mut Classfile) -> (r: Result<(), RewriteError>)
    ensures
        extends(old(cf).constant_pool.constants@, final(cf).constant_pool.constants@),
        final(cf).methods@.len() == old(cf).methods@.len(),
        final(cf).fields@ == old(cf).fields@,
        r is Ok ==> exists|m: int, a: int, p: int, t: u16, s: u16, n: u16| spliced(*old(cf), *final(cf), m, a, p, t, s, n),
        r is Err ==> final(cf).methods@ == old(cf).methods@,
        r is Ok <==> (exists|m: int, a: int, p: int, n: int| #[trigger] splice_point(old(cf).methods@, final(cf).constant_pool.constants@, m, a, p, n))
            && splice_refs_fit(final(cf).constant_pool.constants@),
        r == Err::<(), RewriteError>(RewriteError::MethodNotFound) ==> ({
            let cs = final(cf).constant_pool.constants@;
            forall|j: int| 0 <= j < old(cf).methods@.len() ==> !#[trigger] method_is(old(cf).methods@, j,
                utf8_index(cs, symbols::spec_fill()) as usize, utf8_index(cs, symbols::spec_ret_throwable()) as usize)
        }),
{
    let ghost c0 = cf.constant_pool.constants@;
    let fill_name = cf.constant_pool.intern_utf8(&symbols::fill());
    let ghost ca = cf.constant_pool.constants@;
    let current_thread = cf.constant_pool.intern_method_ref(&symbols::thread_class(), &symbols::current_thread(), &symbols::ret_thread());
    let ghost c1 = cf.constant_pool.constants@;
    let ret_throwable = cf.constant_pool.intern_utf8(&symbols::ret_throwable());
    let ghost cb = cf.constant_pool.constants@;
    let native_fill = cf.constant_pool.intern_method_ref(&symbols::throwable_class(), &symbols::fill(), &symbols::int_to_throwable());
    let ghost c2 = cf.constant_pool.constants@;
    let new_fill = cf.constant_pool.intern_method_ref(&symbols::throwable_class(), &symbols::sp_fill(), &symbols::thread_to_throwable());
    let ghost cs = cf.constant_pool.constants@;
    proof {
        lemma_extends_trans(cb, c2, cs);
        lemma_extends_trans(c1, cb, cs);
        lemma_extends_trans(ca, c1, cs);
        lemma_extends_trans(c0, ca, cs);
        lemma_extends_trans(c1, cb, c2);
        lemma_first_utf8_extends(ca, cs, symbols::spec_fill(), fill_name as int);
        lemma_first_utf8_extends(cb, cs, symbols::spec_ret_throwable(), ret_throwable as int);
        lemma_first_utf8_unique(cs, symbols::spec_fill(), fill_name as int);
        lemma_first_utf8_unique(cs, symbols::spec_ret_throwable(), ret_throwable as int);
        lemma_names_ref_extends(c1, cs, symbols::spec_thread_class(), symbols::spec_current_thread(), symbols::spec_ret_thread(), current_thread as int, false);
        lemma_names_ref_extends(c2, cs, symbols::spec_throwable_class(), symbols::spec_fill(), symbols::spec_int_to_throwable(), native_fill as int, false);
    }
    let mi = match find_method(cf, fill_name, ret_throwable) {
        Some(k) => k,
        None => {
            proof {
                assert(utf8_index(cs, symbols::spec_fill()) == fill_name);
                assert(utf8_index(cs, symbols::spec_ret_throwable()) == ret_throwable);
                assert(cf.methods@ == old(cf).methods@);
            }
            return Err(RewriteError::MethodNotFound);
        },
    };
    let ai = match code_attribute_index(&cf.methods[mi]) {
        Some(k) => k,
        None => {
            proof {
                assert forall|m: int, a: int, p: int, n: int| #[trigger] splice_point(old(cf).methods@, cs, m, a, p, n) implies false by {
                    if m < mi {
                        assert(!method_is(old(cf).methods@, m, fill_name, ret_throwable));
                    } else if mi < m {
                        assert(!method_is(old(cf).methods@, mi as int, fill_name, ret_throwable));
                    }
                    assert(old(cf).methods@[mi as int].attributes@[a] is Code);
                }
            }
            return Err(RewriteError::NoCodeAttribute);
        },
    };
    let target = native_fill as u16;
    let position = match &cf.methods[mi].attributes[ai] {
        Attribute::Code { code, .. } => match find_invokespecial(code, target) {
            Some(p) => p,
            None => {
                proof {
                    assert forall|m: int, a: int, p: int, n: int| #[trigger] splice_point(old(cf).methods@, cs, m, a, p, n) implies false by {
                        if m < mi {
                            assert(!method_is(old(cf).methods@, m, fill_name, ret_throwable));
                        } else if mi < m {
                            assert(!method_is(old(cf).methods@, mi as int, fill_name, ret_throwable));
                        }
                        if a < ai {
                            assert(!(old(cf).methods@[mi as int].attributes@[a] is Code));
                        } else if ai < a {
                            assert(!(old(cf).methods@[mi as int].attributes@[ai as int] is Code));
                        }
                        lemma_names_ref_unique(cs, symbols::spec_throwable_class(), symbols::spec_fill(), symbols::spec_int_to_throwable(), n, native_fill as int, false);
                        assert(code_of(old(cf).methods@[mi as int].attributes@[ai as int])[p] == Instruction::INVOKESPECIAL(target));
                    }
                }
                return Err(RewriteError::InstructionNotFound);
            },
        },
        _ => return Err(RewriteError::NoCodeAttribute),
    };
    if native_fill > 0xffff || current_thread > 0xffff || new_fill > 0xffff {
        proof {
            assert forall|t: int, sf: int| 0 <= t <= 0xffff && 0 <= sf <= 0xffff
                && #[trigger] names_ref(cs, symbols::spec_thread_class(), symbols::spec_current_thread(), symbols::spec_ret_thread(), t, false)
                && #[trigger] names_ref(cs, symbols::spec_throwable_class(), symbols::spec_sp_fill(), symbols::spec_thread_to_throwable(), sf, false)
                implies native_fill > 0xffff by {
                lemma_names_ref_unique(cs, symbols::spec_thread_class(), symbols::spec_current_thread(), symbols::spec_ret_thread(), t, current_thread as int, false);
                lemma_names_ref_unique(cs, symbols::spec_throwable_class(), symbols::spec_sp_fill(), symbols::spec_thread_to_throwable(), sf, new_fill as int, false);
            }
            assert forall|m: int, a: int, p: int, n: int| #[trigger] splice_point(old(cf).methods@, cs, m, a, p, n) implies native_fill <= 0xffff by {
                lemma_names_ref_unique(cs, symbols::spec_throwable_class(), symbols::spec_fill(), symbols::spec_int_to_throwable(), n, native_fill as int, false);
            }
        }
        return Err(RewriteError::InstructionNotFound);
    }
    if position > usize::MAX - 3 {
        {
            proof {
                assert forall|m: int, a: int, p: int, n: int| #[trigger] splice_point(old(cf).methods@, cs, m, a, p, n) implies false by {
                    if m < mi {
                        assert(!method_is(old(cf).methods@, m, fill_name, ret_throwable));
                    } else if mi < m {
                        assert(!method_is(old(cf).methods@, mi as int, fill_name, ret_throwable));
                    }
                    if a < ai {
                        assert(!(old(cf).methods@[mi as int].attributes@[a] is Code));
                    } else if ai < a {
                        assert(!(old(cf).methods@[mi as int].attributes@[ai as int] is Code));
                    }
                    lemma_names_ref_unique(cs, symbols::spec_throwable_class(), symbols::spec_fill(), symbols::spec_int_to_throwable(), n, native_fill as int, false);
                    if p < position {
                        assert(code_of(old(cf).methods@[mi as int].attributes@[ai as int])[p] != Instruction::INVOKESPECIAL(target));
                    } else if position < p {
                        assert(code_of(old(cf).methods@[mi as int].attributes@[ai as int])[position as int] != Instruction::INVOKESPECIAL(n as u16));
                    }
                }
            }
            return Err(RewriteError::InstructionNotFound);
        }
    }
    apply_splice(cf, mi, ai, position, current_thread as u16, new_fill as u16, target);
    proof {
        assert(spliced(*old(cf), *cf, mi as int, ai as int, position as int, current_thread as u16, new_fill as u16, target));
        assert(splice_point(old(cf).methods@, cs, mi as int, ai as int, position as int, native_fill as int));
        assert(names_ref(cs, symbols::spec_thread_class(), symbols::spec_current_thread(), symbols::spec_ret_thread(), current_thread as int, false));
        assert(names_ref(cs, symbols::spec_throwable_class(), symbols::spec_sp_fill(), symbols::spec_thread_to_throwable(), new_fill as int, false));
    }
    Ok(())
}

/// The rewrite of the root throwable class: the `stackParams` field, the native fill
/// method, the splice in `fillInStackTrace()`, and the native trace accessor.
pub fn manip_throwable_class(cf: &mut Classfile) -> (r: Result<(), RewriteError>)
    ensures
        extends(old(cf).constant_pool.constants@, final(cf).constant_pool.constants@),
        r is Ok ==> ({
            let n = old(cf).fields@.len() as int;
            let m = old(cf).methods@.len() as int;
            let cs = final(cf).constant_pool.constants@;
            let f = final(cf).fields@[n];
            let fill = final(cf).methods@[m];
            let trace = final(cf).methods@[m + 1];
            &&& final(cf).fields@.len() == n + 1
            &&& final(cf).fields@.subrange(0, n) == old(cf).fields@
            &&& f.access_flags.flags == ACC_PRIVATE | ACC_TRANSIENT
            &&& is_first_utf8(cs, symbols::spec_stack_params(), f.name_index.idx as int)
            &&& is_first_utf8(cs, symbols::spec_object_array_2d(), f.descriptor_index.idx as int)
            &&& final(cf).methods@.len() == m + 2
            &&& fill.access_flags.flags == ACC_PRIVATE | ACC_NATIVE
            &&& is_first_utf8(cs, symbols::spec_thread_to_throwable(), fill.descriptor_index.idx as int)
            &&& trace.access_flags.flags == ACC_PRIVATE | ACC_SYNCHRONIZED | ACC_NATIVE
            &&& is_first_utf8(cs, symbols::spec_get_our_trace(), trace.name_index.idx as int)
            &&& is_first_utf8(cs, symbols::spec_ret_elements(), trace.descriptor_index.idx as int)
        }),
{
    add_stack_params_field(cf);
    let ghost c1 = cf.constant_pool.constants@;
    let ghost f = cf.fields@[old(cf).fields@.len() as int];
    add_native_stack_params_method(cf);
    let ghost c2 = cf.constant_pool.constants@;
    let ghost fill = cf.methods@[old(cf).methods@.len() as int];
    let ghost cf2 = *cf;
    let r1 = update_fill_method(cf);
    let ghost cf3 = *cf;
    let ghost c3 = cf.constant_pool.constants@;
    let ghost ms3 = cf.methods@;
    match r1 {
        Ok(()) => {},
        Err(e) => {
            proof {
                lemma_extends_trans(old(cf).constant_pool.constants@, c1, c2);
                lemma_extends_trans(old(cf).constant_pool.constants@, c2, c3);
            }
            return Err(e);
        },
    }
    let r2 = replace_our_trace_method(cf);
    proof {
        let c4 = cf.constant_pool.constants@;
        lemma_extends_trans(old(cf).constant_pool.constants@, c1, c2);
        lemma_extends_trans(old(cf).constant_pool.constants@, c2, c3);
        lemma_extends_trans(old(cf).constant_pool.constants@, c3, c4);
        lemma_extends_trans(c1, c2, c3);
        lemma_extends_trans(c1, c3, c4);
        lemma_extends_trans(c2, c3, c4);
        lemma_first_utf8_extends(c1, c4, symbols::spec_stack_params(), f.name_index.idx as int);
        lemma_first_utf8_extends(c1, c4, symbols::spec_object_array_2d(), f.descriptor_index.idx as int);
        lemma_first_utf8_extends(c2, c4, symbols::spec_thread_to_throwable(), fill.descriptor_index.idx as int);
        if r2 is Ok {
            let m = old(cf).methods@.len() as int;
            let (mm, a, p, t, s, n) = choose|mm: int, a: int, p: int, t: u16, s: u16, n: u16| spliced(cf2, cf3, mm, a, p, t, s, n);
            assert(cf2.methods@[m] == fill);
            assert(cf2.methods@[m].attributes@.len() == 0);
            assert(mm != m);
            assert(cf3.methods@[m] == fill);
        }
    }
    r2
}

/// The rewrite of the stack-trace element class: the `paramInfo` field and the native
/// `toString()`.
pub fn manip_element_class(cf: &mut Classfile) -> (r: Result<(), RewriteError>)
    ensures
        extends(old(cf).constant_pool.constants@, final(cf).constant_pool.constants@),
        r is Ok ==> ({
            let n = old(cf).fields@.len() as int;
            let m = old(cf).methods@.len() as int;
            let cs = final(cf).constant_pool.constants@;
            let f = final(cf).fields@[n];
            let to_string = final(cf).methods@[m];
            &&& final(cf).fields@.len() == n + 1
            &&& final(cf).fields@.subrange(0, n) == old(cf).fields@
            &&& f.access_flags.flags == ACC_TRANSIENT
            &&& is_first_utf8(cs, symbols::spec_param_info(), f.name_index.idx as int)
            &&& is_first_utf8(cs, symbols::spec_object_array(), f.descriptor_index.idx as int)
            &&& final(cf).methods@.len() == m + 1
            &&& to_string.access_flags.flags == ACC_PUBLIC | ACC_NATIVE
            &&& is_first_utf8(cs, symbols::spec_to_string(), to_string.name_index.idx as int)
            &&& is_first_utf8(cs, symbols::spec_ret_string(), to_string.descriptor_index.idx as int)
        }),
        r is Err ==> r == Err::<(), RewriteError>(RewriteError::MethodNotFound),
        r is Ok <==> has_method(old(cf).methods@, final(cf).constant_pool.constants@, symbols::spec_to_string(), symbols::spec_ret_string()),
        r is Ok ==> renames(old(cf).methods@, final(cf).methods@, final(cf).constant_pool.constants@,
            symbols::spec_to_string(), symbols::spec_ret_string(), symbols::spec_renamed_to_string()),
{
    add_param_info_field(cf);
    let ghost c1 = cf.constant_pool.constants@;
    let ghost f = cf.fields@[old(cf).fields@.len() as int];
    let r = replace_elem_to_string(cf);
    proof {
        lemma_extends_trans(old(cf).constant_pool.constants@, c1, cf.constant_pool.constants@);
        lemma_first_utf8_extends(c1, cf.constant_pool.constants@, symbols::spec_param_info(), f.name_index.idx as int);
        lemma_first_utf8_extends(c1, cf.constant_pool.constants@, symbols::spec_object_array(), f.descriptor_index.idx as int);
    }
    r
}

pub proof fn lemma_extends_trans(a: Seq<Constant>, b: Seq<Constant>, c: Seq<Constant>)
    requires
        extends(a, b),
        extends(b, c),
    ensures
        extends(a, c),
{
    assert(c.subrange(0, a.len() as int) =~= b.subrange(0, a.len() as int));
}

/// Which of the two rewritten classes a class name designates.
#[derive(Debug, Clone, Copy, PartialEq, Eq, Structural)]
pub enum TargetClass {
    Throwable,
    StackTraceElement,
}

/// The rewrite that a class loaded under `name` gets, if any: the root throwable and the
/// stack-trace element are rewritten, every other class is left alone.
pub fn target_for_class_name(name: &Vec<u8>) -> (r: Option<TargetClass>)
    ensures
        r == if name@ == symbols::spec_throwable_class() {
            Some(TargetClass::Throwable)
        } else if name@ == symbols::spec_element_class() {
            Some(TargetClass::StackTraceElement)
        } else {
            None::<TargetClass>
        },
{
    if crate::names::bytes_equal(name, &symbols::throwable_class()) {
        Some(TargetClass::Throwable)
    } else if crate::names::bytes_equal(name, &symbols::element_class()) {
        Some(TargetClass::StackTraceElement)
    } else {
        None
    }
}

/// `c1` is the rewrite for `target` of the class `c0` that `bytes` encodes: for the
/// stack-trace element, `toString()` renamed and a field and a method added; for the
/// throwable, one field and two methods added. Either way the pool only grows at its end.
pub open spec fn rewritten(target: TargetClass, bytes: Seq<u8>, c0: Classfile, c1: Classfile) -> bool {
    let cs = c1.constant_pool.constants@;
    &&& enc_class(c0) == bytes
    &&& extends(c0.constant_pool.constants@, cs)
    &&& c1.fields@.len() == c0.fields@.len() + 1
    &&& c1.fields@.subrange(0, c0.fields@.len() as int) == c0.fields@
    &&& target == TargetClass::StackTraceElement ==> {
        &&& c1.methods@.len() == c0.methods@.len() + 1
        &&& has_method(c0.methods@, cs, symbols::spec_to_string(), symbols::spec_ret_string())
        &&& renames(c0.methods@, c1.methods@, cs, symbols::spec_to_string(), symbols::spec_ret_string(), symbols::spec_renamed_to_string())
    }
    &&& target == TargetClass::Throwable ==> c1.methods@.len() == c0.methods@.len() + 2
}

/// Decodes a class file, applies the rewrite for `target` and writes it back.
pub fn transform_class(target: TargetClass, bytes: Vec<u8>) -> (r: Result<Vec<u8>, TransformError>)
    ensures
        r matches Ok(out) ==> exists|c0: Classfile, c1: Classfile| #[trigger] rewritten(target, bytes@, c0, c1) && out@ == enc_class(c1),
        r matches Err(TransformError::Rewrite(e)) ==> (exists|c0: Classfile| #[trigger] enc_class(c0) == bytes@)
            && (target == TargetClass::StackTraceElement ==> e == RewriteError::MethodNotFound),
        bytes@.len() < 4 || bytes@.subrange(0, 4) != be32(0xCAFEBABEu32)
            ==> r == Err::<Vec<u8>, TransformError>(TransformError::Decode(DecodeError::InvalidMagic)),
{
    let ghost input = bytes@;
    let mut cf = match ClassReader::read_class(bytes) {
        Ok(c) => c,
        Err(e) => return Err(TransformError::Decode(e)),
    };
    let ghost c0 = cf;
    let res = match target {
        TargetClass::Throwable => manip_throwable_class(&mut cf),
        TargetClass::StackTraceElement => manip_element_class(&mut cf),
    };
    match res {
        Ok(()) => {},
        Err(e) => {
            proof {
                assert(enc_class(c0) == input);
            }
            return Err(TransformError::Rewrite(e));
        },
    }
    let mut w = ClassWriter::new();
    w.write_class(&cf);
    let out = w.into_bytes();
    proof {
        assert(out@ == enc_class(cf));
        assert(rewritten(target, input, c0, cf));
    }
    Ok(out)
}

} // verus!
