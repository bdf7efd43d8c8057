//! In-place operations on a class file: interning constants, adding members, renaming
//! methods and inserting instructions. Interning never adds a duplicate, and every index
//! handed out before stays valid: the pool only grows at its end.
use vstd::prelude::*;
use crate::classfile::{
    AccessFlags, Attribute, Classfile, Constant, ConstantPool, ConstantPoolIndex, Field, Method,
    has_utf8, is_first_utf8, is_utf8_of, utf8_index, lemma_first_utf8_unique,
};
use crate::instruction::Instruction;

verus! {

/// Why a rewrite could not be made.
#[derive(Debug, Clone, Copy, PartialEq, Eq, Structural)]
pub enum RewriteError {
    /// No method with the wanted name and descriptor.
    MethodNotFound,
    /// The method has no code attribute.
    NoCodeAttribute,
    /// The instruction to splice after is not in the method's code.
    InstructionNotFound,
}

/// A reference-like constant by its operands, for lookup.
#[derive(Debug, Clone, Copy, PartialEq, Eq, Structural)]
pub enum ConstantKey {
    Class(usize),
    String(usize),
    NameAndType(usize, usize),
    FieldRef(usize, usize),
    MethodRef(usize, usize),
}

/// Whether constant `c` is the one that `key` describes.
pub open spec fn key_matches(key: ConstantKey, c: Constant) -> bool {
    match key {
        ConstantKey::Class(u) => c matches Constant::Class(i) && i.idx == u,
        ConstantKey::String(u) => c matches Constant::String(i) && i.idx == u,
        ConstantKey::NameAndType(n, d) => c matches Constant::NameAndType { name_index, descriptor_index } && name_index.idx == n && descriptor_index.idx == d,
        ConstantKey::FieldRef(k, n) => c matches Constant::FieldRef { class_index, name_and_type_index } && class_index.idx == k && name_and_type_index.idx == n,
        ConstantKey::MethodRef(k, n) => c matches Constant::MethodRef { class_index, name_and_type_index } && class_index.idx == k && name_and_type_index.idx == n,
    }
}

/// `k` is the first index of the pool holding the constant that `key` describes.
pub open spec fn is_first_key(cs: Seq<Constant>, key: ConstantKey, k: int) -> bool {
    &&& 0 <= k < cs.len()
    &&& key_matches(key, cs[k])
    &&& forall|j: int| 0 <= j < k ==> !key_matches(key, #[trigger] cs[j])
}

pub open spec fn has_key(cs: Seq<Constant>, key: ConstantKey) -> bool {
    exists|k: int| 0 <= k < cs.len() && key_matches(key, #[trigger] cs[k])
}

/// The pool `new` is `old` with at most its last entries added: every index of `old`
/// still holds the same constant.
pub open spec fn extends(old: Seq<Constant>, new: Seq<Constant>) -> bool {
    &&& old.len() <= new.len()
    &&& new.subrange(0, old.len() as int) == old
}

/// The key of a name-and-type constant for the first utf8 entries of `n` and `d`.
pub open spec fn nat_key(cs: Seq<Constant>, n: Seq<u8>, d: Seq<u8>) -> ConstantKey {
    ConstantKey::NameAndType(utf8_index(cs, n) as usize, utf8_index(cs, d) as usize)
}

/// The key of a field (`field`) or method reference to the constants `c` and `n`.
pub open spec fn ref_key(c: usize, n: usize, field: bool) -> ConstantKey {
    if field { ConstantKey::FieldRef(c, n) } else { ConstantKey::MethodRef(c, n) }
}

/// The utf8 `name` and a class constant naming it are in the pool.
pub open spec fn class_present(cs: Seq<Constant>, name: Seq<u8>) -> bool {
    has_utf8(cs, name) && has_key(cs, ConstantKey::Class(utf8_index(cs, name) as usize))
}

/// The utf8 entries `n` and `d` and a name-and-type constant for them are in the pool.
pub open spec fn nat_present(cs: Seq<Constant>, n: Seq<u8>, d: Seq<u8>) -> bool {
    has_utf8(cs, n) && has_utf8(cs, d) && has_key(cs, nat_key(cs, n, d))
}

/// Everything that a reference to `class`.`name` with `desc` needs is in the pool.
pub open spec fn ref_present(cs: Seq<Constant>, class: Seq<u8>, name: Seq<u8>, desc: Seq<u8>, field: bool) -> bool {
    &&& has_utf8(cs, class) && has_utf8(cs, name) && has_utf8(cs, desc)
    &&& exists|ci: int, ni: int| #[trigger] is_first_key(cs, ConstantKey::Class(utf8_index(cs, class) as usize), ci)
        && #[trigger] is_first_key(cs, nat_key(cs, name, desc), ni)
        && has_key(cs, ref_key(ci as usize, ni as usize, field))
}

/// `r` is the first reference (a field reference where `field`) of the pool whose class
/// constant is the first one naming `class` and whose name-and-type is the first one for
/// `name` and `desc`; those name the first utf8 entries of the three strings.
pub open spec fn names_ref(cs: Seq<Constant>, class: Seq<u8>, name: Seq<u8>, desc: Seq<u8>, r: int, field: bool) -> bool {
    &&& is_first_utf8(cs, class, utf8_index(cs, class) as int)
    &&& is_first_utf8(cs, name, utf8_index(cs, name) as int)
    &&& is_first_utf8(cs, desc, utf8_index(cs, desc) as int)
    &&& exists|ci: int, ni: int| #[trigger] is_first_key(cs, ConstantKey::Class(utf8_index(cs, class) as usize), ci)
        && #[trigger] is_first_key(cs, nat_key(cs, name, desc), ni)
        && is_first_key(cs, ref_key(ci as usize, ni as usize, field), r)
}

/// What a reference names stays so when the pool only grows at its end.
pub proof fn lemma_names_ref_extends(cs1: Seq<Constant>, cs2: Seq<Constant>, class: Seq<u8>, name: Seq<u8>, desc: Seq<u8>, r: int, field: bool)
    requires
        names_ref(cs1, class, name, desc, r, field),
        extends(cs1, cs2),
    ensures
        names_ref(cs2, class, name, desc, r, field),
{
    let uc = utf8_index(cs1, class);
    let un = utf8_index(cs1, name);
    let ud = utf8_index(cs1, desc);
    lemma_first_utf8_extends(cs1, cs2, class, uc as int);
    lemma_first_utf8_extends(cs1, cs2, name, un as int);
    lemma_first_utf8_extends(cs1, cs2, desc, ud as int);
    lemma_first_utf8_unique(cs2, class, uc as int);
    lemma_first_utf8_unique(cs2, name, un as int);
    lemma_first_utf8_unique(cs2, desc, ud as int);
    let (ci, ni) = choose|ci: int, ni: int| #[trigger] is_first_key(cs1, ConstantKey::Class(uc as usize), ci)
        && #[trigger] is_first_key(cs1, nat_key(cs1, name, desc), ni)
        && is_first_key(cs1, ref_key(ci as usize, ni as usize, field), r);
    lemma_first_key_extends(cs1, cs2, ConstantKey::Class(uc as usize), ci);
    lemma_first_key_extends(cs1, cs2, nat_key(cs1, name, desc), ni);
    lemma_first_key_extends(cs1, cs2, ref_key(ci as usize, ni as usize, field), r);
    assert(nat_key(cs2, name, desc) == nat_key(cs1, name, desc));
}

/// Only one index is the first reference of its kind to the same strings.
pub proof fn lemma_names_ref_unique(cs: Seq<Constant>, class: Seq<u8>, name: Seq<u8>, desc: Seq<u8>, r1: int, r2: int, field: bool)
    requires
        names_ref(cs, class, name, desc, r1, field),
        names_ref(cs, class, name, desc, r2, field),
    ensures
        r1 == r2,
{
    let uc = utf8_index(cs, class);
    let (ci1, ni1) = choose|ci: int, ni: int| #[trigger] is_first_key(cs, ConstantKey::Class(uc as usize), ci)
        && #[trigger] is_first_key(cs, nat_key(cs, name, desc), ni)
        && is_first_key(cs, ref_key(ci as usize, ni as usize, field), r1);
    let (ci2, ni2) = choose|ci: int, ni: int| #[trigger] is_first_key(cs, ConstantKey::Class(uc as usize), ci)
        && #[trigger] is_first_key(cs, nat_key(cs, name, desc), ni)
        && is_first_key(cs, ref_key(ci as usize, ni as usize, field), r2);
    lemma_first_key_unique(cs, ConstantKey::Class(uc as usize), ci1, ci2);
    lemma_first_key_unique(cs, nat_key(cs, name, desc), ni1, ni2);
    lemma_first_key_unique(cs, ref_key(ci1 as usize, ni1 as usize, field), r1, r2);
}

pub proof fn lemma_first_key_extends(cs1: Seq<Constant>, cs2: Seq<Constant>, key: ConstantKey, k: int)
    requires
        is_first_key(cs1, key, k),
        extends(cs1, cs2),
    ensures
        is_first_key(cs2, key, k),
{
    assert forall|j: int| 0 <= j <= k implies cs2[j] == cs1[j] by {
        assert(cs2.subrange(0, cs1.len() as int)[j] == cs2[j]);
    }
}

pub proof fn lemma_first_key_unique(cs: Seq<Constant>, key: ConstantKey, a: int, b: int)
    requires
        is_first_key(cs, key, a),
        is_first_key(cs, key, b),
    ensures
        a == b,
{
    if a < b {
        assert(!key_matches(key, cs[a]));
    } else if b < a {
        assert(!key_matches(key, cs[b]));
    }
}

pub proof fn lemma_extends_chain(a: Seq<Constant>, b: Seq<Constant>, c: Seq<Constant>)
    requires
        extends(a, b),
        extends(b, c),
    ensures
        extends(a, c),
{
    assert(c.subrange(0, a.len() as int) =~= b.subrange(0, a.len() as int));
}

fn matches_key(c: &Constant, key: ConstantKey) -> (r: bool)
    ensures
        r == key_matches(key, *c),
{
    match (key, c) {
        (ConstantKey::Class(u), Constant::Class(i)) => i.idx == u,
        (ConstantKey::String(u), Constant::String(i)) => i.idx == u,
        (ConstantKey::NameAndType(n, d), Constant::NameAndType { name_index, descriptor_index }) => name_index.idx == n && descriptor_index.idx == d,
        (ConstantKey::FieldRef(k, n), Constant::FieldRef { class_index, name_and_type_index }) => class_index.idx == k && name_and_type_index.idx == n,
        (ConstantKey::MethodRef(k, n), Constant::MethodRef { class_index, name_and_type_index }) => class_index.idx == k && name_and_type_index.idx == n,
        _ => false,
    }
}

fn constant_of_key(key: ConstantKey) -> (c: Constant)
    ensures
        key_matches(key, c),
{
    match key {
        ConstantKey::Class(u) => Constant::Class(ConstantPoolIndex::new(u)),
        ConstantKey::String(u) => Constant::String(ConstantPoolIndex::new(u)),
        ConstantKey::NameAndType(n, d) => Constant::NameAndType { name_index: ConstantPoolIndex::new(n), descriptor_index: ConstantPoolIndex::new(d) },
        ConstantKey::FieldRef(k, n) => Constant::FieldRef { class_index: ConstantPoolIndex::new(k), name_and_type_index: ConstantPoolIndex::new(n) },
        ConstantKey::MethodRef(k, n) => Constant::MethodRef { class_index: ConstantPoolIndex::new(k), name_and_type_index: ConstantPoolIndex::new(n) },
    }
}

/// A copy of a byte string.
pub fn copy_bytes(v: &Vec<u8>) -> (r: Vec<u8>)
    ensures
        r@ == v@,
{
    let mut r: Vec<u8> = Vec::new();
    let mut i: usize = 0;
    while i < v.len()
        invariant
            0 <= i <= v@.len(),
            r@ == v@.subrange(0, i as int),
        decreases v@.len() - i,
    {
        r.push(v[i]);
        i = i + 1;
        proof {
            assert(r@ =~= v@.subrange(0, i as int));
        }
    }
    proof {
        assert(v@.subrange(0, v@.len() as int) =~= v@);
    }
    r
}

/// Interning a utf8 constant twice changes nothing the second time: once `r` is the first
/// index holding `s`, a lookup of `s` finds `r`, so the pool is left as it is.
pub proof fn lemma_intern_utf8_idempotent(cs: Seq<Constant>, s: Seq<u8>, r: nat)
    requires
        is_first_utf8(cs, s, r as int),
    ensures
        has_utf8(cs, s),
        utf8_index(cs, s) == r,
{
    lemma_first_utf8_unique(cs, s, r as int);
    assert(is_utf8_of(cs[r as int], s));
}

/// Interning any other constant twice changes nothing the second time.
pub proof fn lemma_intern_key_idempotent(cs: Seq<Constant>, key: ConstantKey, r: nat)
    requires
        is_first_key(cs, key, r as int),
    ensures
        has_key(cs, key),
        forall|k: int| is_first_key(cs, key, k) ==> k == r,
{
    assert(key_matches(key, cs[r as int]));
    assert forall|k: int| is_first_key(cs, key, k) implies k == r by {
        if k < r {
            assert(!key_matches(key, cs[k]));
        } else if r < k {
            assert(!key_matches(key, cs[r as int]));
        }
    }
}

impl ConstantPool {
    /// The first index holding the constant that `key` describes, if any.
    pub fn find_key(&self, key: ConstantKey) -> (r: Option<usize>)
        ensures
            r matches Some(k) ==> is_first_key(self.constants@, key, k as int),
            r is None ==> !has_key(self.constants@, key),
    {
        let mut i: usize = 0;
        while i < self.constants.len()
            invariant
                0 <= i <= self.constants@.len(),
                forall|j: int| 0 <= j < i ==> !key_matches(key, #[trigger] self.constants@[j]),
            decreases self.constants@.len() - i,
        {
            if matches_key(&self.constants[i], key) {
                return Some(i);
            }
            i = i + 1;
        }
        None
    }

    /// The index of the utf8 constant `bytes`, added at the end of the pool where it is
    /// missing. A second call with the same bytes returns the same index and adds nothing.
    pub fn intern_utf8(&mut self, bytes: &Vec<u8>) -> (r: usize)
        ensures
            is_first_utf8(final(self).constants@, bytes@, r as int),
            extends(old(self).constants@, final(self).constants@),
            has_utf8(old(self).constants@, bytes@) ==> final(self).constants@ == old(self).constants@ && r == utf8_index(old(self).constants@, bytes@),
            !has_utf8(old(self).constants@, bytes@) ==> final(self).constants@.len() == old(self).constants@.len() + 1 && r == old(self).constants@.len(),
    {
        match self.find_ut8_index(bytes) {
            Some(k) => {
                proof {
                    assert(self.constants@.subrange(0, self.constants@.len() as int) =~= self.constants@);
                }
                k
            },
            None => {
                let ghost before = self.constants@;
                let r = self.constants.len();
                self.constants.push(Constant::Utf8(copy_bytes(bytes)));
                proof {
                    assert(self.constants@.subrange(0, before.len() as int) =~= before);
                    assert forall|j: int| 0 <= j < r implies !is_utf8_of(#[trigger] self.constants@[j], bytes@) by {
                        assert(self.constants@[j] == before[j]);
                        if is_utf8_of(before[j], bytes@) {
                            assert(has_utf8(before, bytes@));
                        }
                    }
                }
                r
            },
        }
    }

    /// The index of the constant that `key` describes, added at the end of the pool where
    /// it is missing. A second call with the same key returns the same index and adds nothing.
    pub fn intern_key(&mut self, key: ConstantKey) -> (r: usize)
        ensures
            is_first_key(final(self).constants@, key, r as int),
            extends(old(self).constants@, final(self).constants@),
            has_key(old(self).constants@, key) ==> final(self).constants@ == old(self).constants@,
            !has_key(old(self).constants@, key) ==> final(self).constants@.len() == old(self).constants@.len() + 1 && r == old(self).constants@.len(),
    {
        match self.find_key(key) {
            Some(k) => {
                proof {
                    assert(self.constants@.subrange(0, self.constants@.len() as int) =~= self.constants@);
                }
                k
            },
            None => {
                let ghost before = self.constants@;
                let r = self.constants.len();
                self.constants.push(constant_of_key(key));
                proof {
                    assert(self.constants@.subrange(0, before.len() as int) =~= before);
                    assert forall|j: int| 0 <= j < r implies !key_matches(key, #[trigger] self.constants@[j]) by {
                        assert(self.constants@[j] == before[j]);
                    }
                }
                r
            },
        }
    }

    /// The index of the first class constant naming `name` (its utf8 interned first).
    /// Where both are in the pool already, nothing is added.
    pub fn intern_class(&mut self, name: &Vec<u8>) -> (r: usize)
        ensures
            extends(old(self).constants@, final(self).constants@),
            is_first_utf8(final(self).constants@, name@, utf8_index(final(self).constants@, name@) as int),
            is_first_key(final(self).constants@, ConstantKey::Class(utf8_index(final(self).constants@, name@) as usize), r as int),
            class_present(old(self).constants@, name@) ==> final(self).constants@ == old(self).constants@,
    {
        let ghost c0 = self.constants@;
        let u = self.intern_utf8(name);
        let ghost mid = self.constants@;
        let r = self.intern_key(ConstantKey::Class(u));
        proof {
            let cs = self.constants@;
            lemma_first_utf8_extends(mid, cs, name@, u as int);
            lemma_first_utf8_unique(cs, name@, u as int);
            lemma_extends_chain(c0, mid, cs);
            if class_present(c0, name@) {
                lemma_first_utf8_unique(c0, name@, u as int);
            }
        }
        r
    }

    /// The index of a string constant holding `text` (its utf8 interned first).
    pub fn intern_string(&mut self, text: &Vec<u8>) -> (r: usize)
        ensures
            extends(old(self).constants@, final(self).constants@),
            final(self).constants@[r as int] matches Constant::String(i) && is_first_utf8(final(self).constants@, text@, i.idx as int),
            (r as int) < final(self).constants@.len(),
    {
        let u = self.intern_utf8(text);
        let ghost mid = self.constants@;
        let r = self.intern_key(ConstantKey::String(u));
        proof {
            assert forall|j: int| 0 <= j < u implies !is_utf8_of(#[trigger] self.constants@[j], text@) by {
                assert(self.constants@[j] == mid[j]);
            }
            assert(self.constants@[u as int] == mid[u as int]);
            assert(self.constants@.subrange(0, old(self).constants@.len() as int) =~= old(self).constants@);
        }
        r
    }

    /// The index of the first name-and-type constant for `name` and `descriptor`. Where
    /// all three are in the pool already, nothing is added.
    pub fn intern_name_and_type(&mut self, name: &Vec<u8>, descriptor: &Vec<u8>) -> (r: usize)
        ensures
            extends(old(self).constants@, final(self).constants@),
            is_first_utf8(final(self).constants@, name@, utf8_index(final(self).constants@, name@) as int),
            is_first_utf8(final(self).constants@, descriptor@, utf8_index(final(self).constants@, descriptor@) as int),
            is_first_key(final(self).constants@, nat_key(final(self).constants@, name@, descriptor@), r as int),
            nat_present(old(self).constants@, name@, descriptor@) ==> final(self).constants@ == old(self).constants@,
    {
        let ghost c0 = self.constants@;
        let n = self.intern_utf8(name);
        let ghost m1 = self.constants@;
        let d = self.intern_utf8(descriptor);
        let ghost m2 = self.constants@;
        let r = self.intern_key(ConstantKey::NameAndType(n, d));
        proof {
            let cs = self.constants@;
            lemma_first_utf8_extends(m1, m2, name@, n as int);
            lemma_first_utf8_extends(m2, cs, name@, n as int);
            lemma_first_utf8_extends(m2, cs, descriptor@, d as int);
            lemma_first_utf8_unique(cs, name@, n as int);
            lemma_first_utf8_unique(cs, descriptor@, d as int);
            lemma_extends_chain(c0, m1, m2);
            lemma_extends_chain(c0, m2, cs);
            if nat_present(c0, name@, descriptor@) {
                lemma_first_utf8_unique(c0, name@, n as int);
                lemma_first_utf8_unique(c0, descriptor@, d as int);
            }
        }
        r
    }

    /// The index of the first method reference to `class`.`name` with `descriptor`; the class
    /// and name-and-type it names are the first ones for those strings. Where all of them are
    /// in the pool already, nothing is added, so a second call returns the same index and
    /// leaves the pool as it is.
    pub fn intern_method_ref(&mut self, class: &Vec<u8>, name: &Vec<u8>, descriptor: &Vec<u8>) -> (r: usize)
        ensures
            extends(old(self).constants@, final(self).constants@),
            names_ref(final(self).constants@, class@, name@, descriptor@, r as int, false),
            ref_present(final(self).constants@, class@, name@, descriptor@, false),
            ref_present(old(self).constants@, class@, name@, descriptor@, false) ==> final(self).constants@ == old(self).constants@,
    {
        self.intern_ref(class, name, descriptor, false)
    }

    /// The index of the first field reference to `class`.`name` with `descriptor`, as
    /// `intern_method_ref` does for methods.
    pub fn intern_field_ref(&mut self, class: &Vec<u8>, name: &Vec<u8>, descriptor: &Vec<u8>) -> (r: usize)
        ensures
            extends(old(self).constants@, final(self).constants@),
            names_ref(final(self).constants@, class@, name@, descriptor@, r as int, true),
            ref_present(final(self).constants@, class@, name@, descriptor@, true),
            ref_present(old(self).constants@, class@, name@, descriptor@, true) ==> final(self).constants@ == old(self).constants@,
    {
        self.intern_ref(class, name, descriptor, true)
    }

    fn intern_ref(&mut self, class: &Vec<u8>, name: &Vec<u8>, descriptor: &Vec<u8>, field: bool) -> (r: usize)
        ensures
            extends(old(self).constants@, final(self).constants@),
            names_ref(final(self).constants@, class@, name@, descriptor@, r as int, field),
            ref_present(final(self).constants@, class@, name@, descriptor@, field),
            ref_present(old(self).constants@, class@, name@, descriptor@, field) ==> final(self).constants@ == old(self).constants@,
    {
        let ghost c0 = self.constants@;
        let c = self.intern_class(class);
        let ghost m1 = self.constants@;
        let n = self.intern_name_and_type(name, descriptor);
        let ghost m2 = self.constants@;
        let key = if field { ConstantKey::FieldRef(c, n) } else { ConstantKey::MethodRef(c, n) };
        let r = self.intern_key(key);
        proof {
            let cs = self.constants@;
            let uc = utf8_index(m1, class@);
            lemma_first_utf8_extends(m1, m2, class@, uc as int);
            lemma_first_utf8_extends(m2, cs, class@, uc as int);
            lemma_first_utf8_unique(m2, class@, uc as int);
            lemma_first_utf8_unique(cs, class@, uc as int);
            lemma_first_key_extends(m1, m2, ConstantKey::Class(uc as usize), c as int);
            lemma_first_key_extends(m2, cs, ConstantKey::Class(uc as usize), c as int);
            let un = utf8_index(m2, name@);
            let ud = utf8_index(m2, descriptor@);
            lemma_first_utf8_extends(m2, cs, name@, un as int);
            lemma_first_utf8_extends(m2, cs, descriptor@, ud as int);
            lemma_first_utf8_unique(cs, name@, un as int);
            lemma_first_utf8_unique(cs, descriptor@, ud as int);
            lemma_first_key_extends(m2, cs, nat_key(m2, name@, descriptor@), n as int);
            lemma_extends_chain(c0, m1, m2);
            lemma_extends_chain(c0, m2, cs);
            assert(names_ref(cs, class@, name@, descriptor@, r as int, field));
            if ref_present(c0, class@, name@, descriptor@, field) {
                let (ci, ni) = choose|ci: int, ni: int| #[trigger] is_first_key(c0, ConstantKey::Class(utf8_index(c0, class@) as usize), ci)
                    && #[trigger] is_first_key(c0, nat_key(c0, name@, descriptor@), ni)
                    && has_key(c0, ref_key(ci as usize, ni as usize, field));
                assert(m1 == c0);
                lemma_first_key_unique(c0, ConstantKey::Class(utf8_index(c0, class@) as usize), ci, c as int);
                assert(m2 == c0);
                lemma_first_key_unique(c0, nat_key(c0, name@, descriptor@), ni, n as int);
            }
        }
        r
    }

}

/// The method at `k` has name index `name` and descriptor index `desc`.
pub open spec fn method_is(ms: Seq<Method>, k: int, name: usize, desc: usize) -> bool {
    ms[k].name_index.idx == name && ms[k].descriptor_index.idx == desc
}

/// The first method with name index `name` and descriptor index `desc`, if any.
pub fn find_method(cf: &Classfile, name: usize, desc: usize) -> (r: Option<usize>)
    ensures
        r matches Some(k) ==> k < cf.methods@.len() && method_is(cf.methods@, k as int, name, desc)
            && forall|j: int| 0 <= j < k ==> !method_is(cf.methods@, j, name, desc),
        r is None ==> forall|j: int| 0 <= j < cf.methods@.len() ==> !method_is(cf.methods@, j, name, desc),
{
    let mut i: usize = 0;
    while i < cf.methods.len()
        invariant
            0 <= i <= cf.methods@.len(),
            forall|j: int| 0 <= j < i ==> !method_is(cf.methods@, j, name, desc),
        decreases cf.methods@.len() - i,
    {
        if cf.methods[i].name_index.idx == name && cf.methods[i].descriptor_index.idx == desc {
            return Some(i);
        }
        i = i + 1;
    }
    None
}

/// The index of the first code attribute of a method, if any.
pub fn code_attribute_index(method: &Method) -> (r: Option<usize>)
    ensures
        r matches Some(k) ==> k < method.attributes@.len() && method.attributes@[k as int] is Code
            && forall|j: int| 0 <= j < k ==> !(method.attributes@[j] is Code),
        r is None ==> forall|j: int| 0 <= j < method.attributes@.len() ==> !(method.attributes@[j] is Code),
{
    let mut i: usize = 0;
    while i < method.attributes.len()
        invariant
            0 <= i <= method.attributes@.len(),
            forall|j: int| 0 <= j < i ==> !(method.attributes@[j] is Code),
        decreases method.attributes@.len() - i,
    {
        match &method.attributes[i] {
            Attribute::Code { .. } => return Some(i),
            _ => {},
        }
        i = i + 1;
    }
    None
}

/// Inserts `instruction` at `index` of a code array. Nothing is relocated: the offsets of
/// branches, handlers and stack map frames after `index` are left as they were.
pub fn insert_instruction(code: &mut Vec<Instruction>, index: usize, instruction: Instruction)
    requires
        index <= old(code)@.len(),
    ensures
        final(code)@ == old(code)@.insert(index as int, instruction),
{
    code.insert(index, instruction);
}

/// Appends a field with no attributes; its name and descriptor are interned.
pub fn add_field(cf: &mut Classfile, flags: u16, name: &Vec<u8>, descriptor: &Vec<u8>)
    ensures
        extends(old(cf).constant_pool.constants@, final(cf).constant_pool.constants@),
        final(cf).fields@.len() == old(cf).fields@.len() + 1,
        final(cf).fields@.subrange(0, old(cf).fields@.len() as int) == old(cf).fields@,
        ({
            let f = final(cf).fields@[old(cf).fields@.len() as int];
            let cs = final(cf).constant_pool.constants@;
            &&& f.access_flags.flags == flags
            &&& is_first_utf8(cs, name@, f.name_index.idx as int)
            &&& is_first_utf8(cs, descriptor@, f.descriptor_index.idx as int)
            &&& f.attributes@.len() == 0
        }),
        final(cf).methods@ == old(cf).methods@,
        final(cf).attributes@ == old(cf).attributes@,
{
    let n = cf.constant_pool.intern_utf8(name);
    let ghost m1 = cf.constant_pool.constants@;
    let d = cf.constant_pool.intern_utf8(descriptor);
    proof {
        let m2 = cf.constant_pool.constants@;
        assert forall|j: int| 0 <= j < n implies !is_utf8_of(#[trigger] m2[j], name@) by {
            assert(m2[j] == m1[j]);
        }
        assert(m2[n as int] == m1[n as int]);
        assert(m2.subrange(0, old(cf).constant_pool.constants@.len() as int) =~= old(cf).constant_pool.constants@);
    }
    cf.fields.push(Field {
        access_flags: AccessFlags::of(flags),
        name_index: ConstantPoolIndex::new(n),
        descriptor_index: ConstantPoolIndex::new(d),
        attributes: Vec::new(),
    });
    proof {
        assert(cf.fields@.subrange(0, old(cf).fields@.len() as int) =~= old(cf).fields@);
    }
}

/// Appends a method with the given attributes; its name and descriptor are interned.
pub fn add_method(cf: &mut Classfile, flags: u16, name: &Vec<u8>, descriptor: &Vec<u8>, attributes: Vec<Attribute>)
    ensures
        extends(old(cf).constant_pool.constants@, final(cf).constant_pool.constants@),
        final(cf).methods@.len() == old(cf).methods@.len() + 1,
        final(cf).methods@.subrange(0, old(cf).methods@.len() as int) == old(cf).methods@,
        ({
            let m = final(cf).methods@[old(cf).methods@.len() as int];
            let cs = final(cf).constant_pool.constants@;
            &&& m.access_flags.flags == flags
            &&& is_first_utf8(cs, name@, m.name_index.idx as int)
            &&& is_first_utf8(cs, descriptor@, m.descriptor_index.idx as int)
            &&& m.attributes == attributes
        }),
        final(cf).fields@ == old(cf).fields@,
        final(cf).attributes@ == old(cf).attributes@,
{
    let n = cf.constant_pool.intern_utf8(name);
    let ghost m1 = cf.constant_pool.constants@;
    let d = cf.constant_pool.intern_utf8(descriptor);
    proof {
        let m2 = cf.constant_pool.constants@;
        assert forall|j: int| 0 <= j < n implies !is_utf8_of(#[trigger] m2[j], name@) by {
            assert(m2[j] == m1[j]);
        }
        assert(m2[n as int] == m1[n as int]);
        assert(m2.subrange(0, old(cf).constant_pool.constants@.len() as int) =~= old(cf).constant_pool.constants@);
    }
    cf.methods.push(Method {
        access_flags: AccessFlags::of(flags),
        name_index: ConstantPoolIndex::new(n),
        descriptor_index: ConstantPoolIndex::new(d),
        attributes,
    });
    proof {
        assert(cf.methods@.subrange(0, old(cf).methods@.len() as int) =~= old(cf).methods@);
    }
}

/// `ms1` is `ms0` with every method named `old_name` with `desc` renamed to `new_name`
/// (by the first utf8 entries of `cs`), and every other method as it was.
pub open spec fn renames(ms0: Seq<Method>, ms1: Seq<Method>, cs: Seq<Constant>, old_name: Seq<u8>, desc: Seq<u8>, new_name: Seq<u8>) -> bool {
    &&& ms1.len() >= ms0.len()
    &&& forall|j: int| 0 <= j < ms0.len() ==> if ms0[j].name_index.idx == utf8_index(cs, old_name) && ms0[j].descriptor_index.idx == utf8_index(cs, desc) {
        (#[trigger] ms1[j]).name_index.idx == utf8_index(cs, new_name) && ms1[j].descriptor_index == ms0[j].descriptor_index
            && ms1[j].access_flags == ms0[j].access_flags && ms1[j].attributes == ms0[j].attributes
    } else {
        ms1[j] == ms0[j]
    }
}

/// Some method of `ms` is named `name` with `desc`, by the first utf8 entries of `cs`.
pub open spec fn has_method(ms: Seq<Method>, cs: Seq<Constant>, name: Seq<u8>, desc: Seq<u8>) -> bool {
    exists|j: int| 0 <= j < ms.len() && (#[trigger] ms[j]).name_index.idx == utf8_index(cs, name) && ms[j].descriptor_index.idx == utf8_index(cs, desc)
}

/// Retargets to `new_name` the name of every method named `old_name` with `descriptor`
/// (the three strings are interned first). Fails, having only interned, where there is none.
pub fn rename_method(cf: &mut Classfile, old_name: &Vec<u8>, descriptor: &Vec<u8>, new_name: &Vec<u8>) -> (r: Result<(), RewriteError>)
    ensures
        extends(old(cf).constant_pool.constants@, final(cf).constant_pool.constants@),
        final(cf).methods@.len() == old(cf).methods@.len(),
        renames(old(cf).methods@, final(cf).methods@, final(cf).constant_pool.constants@, old_name@, descriptor@, new_name@),
        r is Ok <==> has_method(old(cf).methods@, final(cf).constant_pool.constants@, old_name@, descriptor@),
        is_first_utf8(final(cf).constant_pool.constants@, old_name@, utf8_index(final(cf).constant_pool.constants@, old_name@) as int),
        is_first_utf8(final(cf).constant_pool.constants@, descriptor@, utf8_index(final(cf).constant_pool.constants@, descriptor@) as int),
        is_first_utf8(final(cf).constant_pool.constants@, new_name@, utf8_index(final(cf).constant_pool.constants@, new_name@) as int),
        r is Err ==> r == Err::<(), RewriteError>(RewriteError::MethodNotFound),
        final(cf).fields@ == old(cf).fields@,
        final(cf).attributes@ == old(cf).attributes@,
{
    let on = cf.constant_pool.intern_utf8(old_name);
    let ghost c1 = cf.constant_pool.constants@;
    let d = cf.constant_pool.intern_utf8(descriptor);
    let ghost c2 = cf.constant_pool.constants@;
    let nn = cf.constant_pool.intern_utf8(new_name);
    let ghost cs = cf.constant_pool.constants@;
    proof {
        assert(cs.subrange(0, old(cf).constant_pool.constants@.len() as int) =~= old(cf).constant_pool.constants@);
        lemma_first_utf8_extends(c1, c2, old_name@, on as int);
        lemma_first_utf8_extends(c2, cs, old_name@, on as int);
        lemma_first_utf8_extends(c2, cs, descriptor@, d as int);
        lemma_first_utf8_unique(cs, new_name@, nn as int);
        lemma_first_utf8_unique(cs, old_name@, on as int);
        lemma_first_utf8_unique(cs, descriptor@, d as int);
    }
    let ghost ms0 = cf.methods@;
    let mut found = false;
    let mut i: usize = 0;
    while i < cf.methods.len()
        invariant
            0 <= i <= cf.methods@.len(),
            cf.methods@.len() == ms0.len(),
            cf.constant_pool.constants@ == cs,
            cf.fields@ == old(cf).fields@,
            cf.attributes@ == old(cf).attributes@,
            on == utf8_index(cs, old_name@),
            d == utf8_index(cs, descriptor@),
            nn == utf8_index(cs, new_name@),
            forall|j: int| 0 <= j < i ==> if ms0[j].name_index.idx == on && ms0[j].descriptor_index.idx == d {
                cf.methods@[j].name_index.idx == nn && cf.methods@[j].descriptor_index == ms0[j].descriptor_index
                    && cf.methods@[j].access_flags == ms0[j].access_flags && cf.methods@[j].attributes == ms0[j].attributes
            } else {
                cf.methods@[j] == ms0[j]
            },
            forall|j: int| i <= j < ms0.len() ==> cf.methods@[j] == ms0[j],
            found <==> exists|j: int| 0 <= j < i && ms0[j].name_index.idx == on && ms0[j].descriptor_index.idx == d,
        decreases ms0.len() - i,
    {
        let matched = cf.methods[i].name_index.idx == on && cf.methods[i].descriptor_index.idx == d;
        proof {
            assert(cf.methods@[i as int] == ms0[i as int]);
            if matched {
                assert(ms0[i as int].name_index.idx == on && ms0[i as int].descriptor_index.idx == d);
            }
            if !matched && found {
                let w = choose|j: int| 0 <= j < i && ms0[j].name_index.idx == on && ms0[j].descriptor_index.idx == d;
                assert(ms0[w].name_index.idx == on);
            }
        }
        if matched {
            let ghost before = cf.methods@;
            cf.methods[i].name_index = ConstantPoolIndex::new(nn);
            found = true;
            proof {
                assert forall|j: int| 0 <= j < ms0.len() && j != i implies cf.methods@[j] == before[j] by {}
            }
        }
        i = i + 1;
    }
    if found {
        Ok(())
    } else {
        Err(RewriteError::MethodNotFound)
    }
}

/// A first index stays first when the pool only grows at its end.
pub proof fn lemma_first_utf8_extends(cs1: Seq<Constant>, cs2: Seq<Constant>, s: Seq<u8>, k: int)
    requires
        is_first_utf8(cs1, s, k),
        extends(cs1, cs2),
    ensures
        is_first_utf8(cs2, s, k),
{
    assert forall|j: int| 0 <= j <= k implies cs2[j] == cs1[j] by {
        assert(cs2.subrange(0, cs1.len() as int)[j] == cs2[j]);
    }
}

} // verus!
