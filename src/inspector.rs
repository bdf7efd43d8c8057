//! The decisions of the stack inspector: the parameters of a frame from its method's
//! descriptor, their reconciliation with the local-variable table, which local read serves
//! each of them, and the layout of what a capture hands back.
use vstd::prelude::*;
use crate::descriptor::{descriptor_types, parameter_types, slot_after, slot_width, lemma_slot_after_push, lemma_slot_after_grows};

verus! {

/// The `static` bit of a method's modifiers.
pub const STATIC_FLAG: i32 = 0x0008;
/// The `native` bit of a method's modifiers.
pub const NATIVE_FLAG: i32 = 0x0100;
/// The depth used when a throwable reports a stack depth of 0.
pub const DEFAULT_MAX_STACK_DEPTH: i32 = 3000;
/// Frames asked for beyond the throwable's own depth.
pub const FILL_EXTRA_FRAMES: i32 = 10;
/// Frames of the capture machinery above the throwing frame.
pub const FILL_SKIP_FRAMES: usize = 2;

/// Why a frame's parameters could not be determined.
#[derive(Debug, Clone, Copy, PartialEq, Eq, Structural)]
pub enum InspectError {
    /// The method descriptor is not well formed.
    BadDescriptor,
    /// The local-variable table has no entry starting at 0 for a parameter's slot, or its
    /// signature differs from the descriptor's.
    DebugTableMismatch,
}

/// Why a stack capture was refused.
#[derive(Debug, Clone, Copy, PartialEq, Eq, Structural)]
pub enum ArgumentError {
    /// No thread was given.
    NullArg,
    /// The depth is negative.
    BadArg,
}

/// One parameter of a frame: its name, its type descriptor, its local slot and, once
/// captured, a handle on its value.
#[derive(Debug)]
pub struct Param {
    pub name: Vec<u8>,
    pub typ: Vec<u8>,
    pub slot: usize,
    pub value: Option<u64>,
}

/// A frame's method: its modifiers and its parameters, the receiver first where there is one.
#[derive(Debug)]
pub struct MethodInfo {
    pub mods: i32,
    pub params: Vec<Param>,
}

/// An entry of a method's local-variable table.
#[derive(Debug)]
pub struct LocalVariableEntry {
    pub start_location: i64,
    pub name: Vec<u8>,
    pub signature: Vec<u8>,
    pub slot: usize,
}

/// The decimal digits of `n`.
pub open spec fn decimal(n: nat) -> Seq<u8>
    decreases n,
{
    if n < 10 {
        seq![(48 + n) as u8]
    } else {
        decimal(n / 10) + seq![(48 + n % 10) as u8]
    }
}

/// `arg` followed by the decimal digits of `k`.
pub open spec fn arg_name(k: nat) -> Seq<u8> {
    seq![97u8, 114u8, 103u8] + decimal(k)
}

pub open spec fn this_name() -> Seq<u8> {
    seq![116u8, 104u8, 105u8, 115u8]
}

fn push_decimal(out: &mut Vec<u8>, n: usize)
    ensures
        final(out)@ == old(out)@ + decimal(n as nat),
    decreases n,
{
    if n >= 10 {
        push_decimal(out, n / 10);
    }
    out.push((48 + n % 10) as u8);
    proof {
        if n < 10 {
            assert(final(out)@ =~= old(out)@ + decimal(n as nat));
        } else {
            assert(final(out)@ =~= old(out)@ + decimal(n as nat));
        }
    }
}

/// The name of the `k`th declared parameter before any debug table applies: `arg` and `k`.
pub fn arg_name_bytes(k: usize) -> (r: Vec<u8>)
    ensures
        r@ == arg_name(k as nat),
{
    let mut r: Vec<u8> = vec![97u8, 114u8, 103u8];
    push_decimal(&mut r, k);
    r
}

/// The receiver's parameter name, `this`.
pub fn this_name_bytes() -> (r: Vec<u8>)
    ensures
        r@ == this_name(),
{
    vec![116u8, 104u8, 105u8, 115u8]
}

fn copy(v: &Vec<u8>) -> (r: Vec<u8>)
    ensures
        r@ == v@,
{
    crate::rewriter::copy_bytes(v)
}

/// The parameters that the descriptor gives a method with modifiers `mods`: for an
/// instance method the receiver `this` of type `receiver_type` at slot 0, then `arg0`,
/// `arg1`, ... of the descriptor's types, each at the slot after the previous one, long
/// and double taking two slots. No value is captured yet.
pub open spec fn params_from_descriptor(mods: i32, desc: Seq<u8>, receiver_type: Seq<u8>, info: MethodInfo) -> bool {
    let ts = descriptor_types(desc)->0;
    let base: int = if mods & STATIC_FLAG != 0 { 0 } else { 1 };
    &&& info.mods == mods
    &&& info.params@.len() == ts.len() + base
    &&& base == 1 ==> info.params@[0].name@ == this_name() && info.params@[0].typ@ == receiver_type && info.params@[0].slot == 0
    &&& forall|k: int| 0 <= k < ts.len() ==> {
        let p = #[trigger] info.params@[k + base];
        &&& p.name@ == arg_name(k as nat)
        &&& p.typ@ == ts[k]
        &&& p.slot == slot_after(ts.subrange(0, k), base)
    }
    &&& forall|k: int| 0 <= k < info.params@.len() ==> (#[trigger] info.params@[k]).value is None
}

/// Parses a frame's method descriptor into its parameters (see `params_from_descriptor`).
pub fn get_method_param_info(mods: i32, descriptor: &Vec<u8>, receiver_type: &Vec<u8>) -> (r: Result<MethodInfo, InspectError>)
    requires
        descriptor@.len() < 0x10000,
    ensures
        descriptor_types(descriptor@) is None ==> r == Err::<MethodInfo, InspectError>(InspectError::BadDescriptor),
        descriptor_types(descriptor@) is Some ==> (r matches Ok(info) && params_from_descriptor(mods, descriptor@, receiver_type@, info)),
{
    let types = match parameter_types(descriptor) {
        Some(t) => t,
        None => return Err(InspectError::BadDescriptor),
    };
    let ghost ts = descriptor_types(descriptor@)->0;
    let is_static = mods & STATIC_FLAG != 0;
    let mut params: Vec<Param> = Vec::new();
    let mut slot: usize = 0;
    if !is_static {
        params.push(Param { name: this_name_bytes(), typ: copy(receiver_type), slot: 0, value: None });
        slot = 1;
    }
    let ghost base: int = if is_static { 0 } else { 1 };
    proof {
        lemma_types_bound(descriptor@);
    }
    let mut k: usize = 0;
    while k < types.len()
        invariant
            types@.len() == ts.len(),
            ts.len() <= descriptor@.len(),
            descriptor@.len() < 0x10000,
            forall|j: int| 0 <= j < ts.len() ==> (#[trigger] types@[j])@ == ts[j],
            0 <= k <= ts.len(),
            base == (if is_static { 0int } else { 1int }),
            params@.len() == k + base,
            slot == slot_after(ts.subrange(0, k as int), base),
            base == 1 ==> params@[0].name@ == this_name() && params@[0].typ@ == receiver_type@ && params@[0].slot == 0,
            forall|j: int| 0 <= j < k ==> {
                let p = #[trigger] params@[j + base];
                &&& p.name@ == arg_name(j as nat)
                &&& p.typ@ == ts[j]
                &&& p.slot == slot_after(ts.subrange(0, j), base)
            },
            forall|j: int| 0 <= j < params@.len() ==> (#[trigger] params@[j]).value is None,
        decreases ts.len() - k,
    {
        let t = copy(&types[k]);
        let wide = t.len() == 1 && (t[0] == 74 || t[0] == 68);
        proof {
            lemma_slot_after_grows(ts.subrange(0, k as int), base);
            assert(ts.subrange(0, k as int + 1) =~= ts.subrange(0, k as int).push(ts[k as int]));
            lemma_slot_after_push(ts.subrange(0, k as int), ts[k as int], base);
            if t@ == seq![74u8] || t@ == seq![68u8] {
                assert(wide);
            }
            if wide {
                assert(t@ =~= seq![t@[0]]);
            }
        }
        params.push(Param { name: arg_name_bytes(k), typ: t, slot, value: None });
        slot = if wide { slot + 2 } else { slot + 1 };
        k = k + 1;
    }
    Ok(MethodInfo { mods, params })
}

proof fn lemma_types_bound(s: Seq<u8>)
    requires
        descriptor_types(s) is Some,
    ensures
        descriptor_types(s)->0.len() <= s.len(),
{
    lemma_types_from_bound(s, 1);
}

proof fn lemma_types_from_bound(s: Seq<u8>, i: int)
    requires
        crate::descriptor::types_from(s, i) is Some,
    ensures
        crate::descriptor::types_from(s, i)->0.len() <= s.len() - i,
    decreases s.len() - i,
{
    if 0 <= i < s.len() && s[i] != 41u8 {
        let n = crate::descriptor::type_len(s, i)->0;
        lemma_types_from_bound(s, i + n);
    }
}

/// `j` is the first entry of the table for `slot` that starts at location 0.
pub open spec fn is_entry_for(es: Seq<LocalVariableEntry>, slot: usize, j: int) -> bool {
    &&& 0 <= j < es.len()
    &&& es[j].slot == slot && es[j].start_location == 0
    &&& forall|i: int| 0 <= i < j ==> !((#[trigger] es[i]).slot == slot && es[i].start_location == 0)
}

pub open spec fn has_entry_for(es: Seq<LocalVariableEntry>, slot: usize) -> bool {
    exists|j: int| 0 <= j < es.len() && (#[trigger] es[j]).slot == slot && es[j].start_location == 0
}

/// The table agrees with the parameters: each has an entry for its slot starting at 0,
/// whose signature is the parameter's type.
pub open spec fn table_agrees(params: Seq<Param>, es: Seq<LocalVariableEntry>) -> bool {
    forall|k: int| 0 <= k < params.len() ==> exists|j: int| is_entry_for(es, (#[trigger] params[k]).slot, j) && es[j].signature@ == params[k].typ@
}

fn entry_for(es: &Vec<LocalVariableEntry>, slot: usize) -> (r: Option<usize>)
    ensures
        r matches Some(j) ==> is_entry_for(es@, slot, j as int),
        r is None ==> !has_entry_for(es@, slot),
{
    let mut i: usize = 0;
    while i < es.len()
        invariant
            0 <= i <= es@.len(),
            forall|j: int| 0 <= j < i ==> !((#[trigger] es@[j]).slot == slot && es@[j].start_location == 0),
        decreases es@.len() - i,
    {
        if es[i].slot == slot && es[i].start_location == 0 {
            return Some(i);
        }
        i = i + 1;
    }
    None
}

/// Names each parameter after the table's entry for its slot. Where the table does not
/// agree with the descriptor (see `table_agrees`) nothing changes and the frame keeps its
/// parsed names.
pub fn apply_local_var_table(info: &mut MethodInfo, entries: &Vec<LocalVariableEntry>) -> (r: Result<(), InspectError>)
    ensures
        r is Ok <==> table_agrees(old(info).params@, entries@),
        r is Err ==> *final(info) == *old(info) && r == Err::<(), InspectError>(InspectError::DebugTableMismatch),
        r is Ok ==> final(info).mods == old(info).mods && final(info).params@.len() == old(info).params@.len()
            && forall|k: int| 0 <= k < old(info).params@.len() ==> {
                let p0 = old(info).params@[k];
                let p1 = #[trigger] final(info).params@[k];
                exists|j: int| is_entry_for(entries@, p0.slot, j) && p1.name@ == entries@[j].name@
                    && p1.typ@ == p0.typ@ && p1.slot == p0.slot && p1.value == p0.value
            },
{
    let mut names: Vec<Vec<u8>> = Vec::new();
    let mut k: usize = 0;
    while k < info.params.len()
        invariant
            0 <= k <= info.params@.len(),
            *info == *old(info),
            names@.len() == k,
            forall|i: int| 0 <= i < k ==> exists|j: int| is_entry_for(entries@, (#[trigger] info.params@[i]).slot, j)
                && entries@[j].signature@ == info.params@[i].typ@ && names@[i]@ == entries@[j].name@,
        decreases info.params@.len() - k,
    {
        let j = match entry_for(entries, info.params[k].slot) {
            Some(j) => j,
            None => {
                proof {
                    assert(!table_agrees(old(info).params@, entries@)) by {
                        if table_agrees(old(info).params@, entries@) {
                            let w = choose|j: int| is_entry_for(entries@, info.params@[k as int].slot, j) && entries@[j].signature@ == info.params@[k as int].typ@;
                            assert(entries@[w].slot == info.params@[k as int].slot && entries@[w].start_location == 0);
                        }
                    }
                }
                return Err(InspectError::DebugTableMismatch);
            },
        };
        if !crate::names::bytes_equal(&entries[j].signature, &info.params[k].typ) {
            proof {
                assert(!table_agrees(old(info).params@, entries@)) by {
                    if table_agrees(old(info).params@, entries@) {
                        let w = choose|w: int| is_entry_for(entries@, info.params@[k as int].slot, w) && entries@[w].signature@ == info.params@[k as int].typ@;
                        if w < j {
                            assert(!(entries@[w].slot == info.params@[k as int].slot && entries@[w].start_location == 0));
                        } else if j < w {
                            assert(!(entries@[j as int].slot == info.params@[k as int].slot && entries@[j as int].start_location == 0));
                        }
                    }
                }
            }
            return Err(InspectError::DebugTableMismatch);
        }
        names.push(copy(&entries[j].name));
        k = k + 1;
    }
    let ghost p0 = info.params@;
    let mut i: usize = 0;
    while i < info.params.len()
        invariant
            0 <= i <= info.params@.len(),
            info.params@.len() == p0.len(),
            names@.len() == p0.len(),
            info.mods == old(info).mods,
            p0 == old(info).params@,
            forall|x: int| 0 <= x < p0.len() ==> exists|j: int| is_entry_for(entries@, (#[trigger] p0[x]).slot, j)
                && entries@[j].signature@ == p0[x].typ@ && names@[x]@ == entries@[j].name@,
            forall|x: int| 0 <= x < i ==> (#[trigger] info.params@[x]).name@ == names@[x]@ && info.params@[x].typ == p0[x].typ
                && info.params@[x].slot == p0[x].slot && info.params@[x].value == p0[x].value,
            forall|x: int| i <= x < p0.len() ==> #[trigger] info.params@[x] == p0[x],
        decreases p0.len() - i,
    {
        let name = copy(&names[i]);
        info.params[i].name = name;
        i = i + 1;
    }
    proof {
        assert forall|x: int| 0 <= x < p0.len() implies exists|j: int| is_entry_for(entries@, (#[trigger] p0[x]).slot, j) && entries@[j].signature@ == p0[x].typ@ by {}
    }
    Ok(())
}

/// How a value is read from a frame and boxed.
#[derive(Debug, Clone, Copy, PartialEq, Eq, Structural)]
pub enum ValueKind {
    Boolean,
    Byte,
    Char,
    Short,
    Int,
    Long,
    Float,
    Double,
    Reference,
}

/// The kind of value of a type descriptor: the primitive letters each name theirs, arrays
/// and classes are references.
pub open spec fn spec_value_kind(t: Seq<u8>) -> Option<ValueKind> {
    if t == seq![90u8] {
        Some(ValueKind::Boolean)
    } else if t == seq![66u8] {
        Some(ValueKind::Byte)
    } else if t == seq![67u8] {
        Some(ValueKind::Char)
    } else if t == seq![83u8] {
        Some(ValueKind::Short)
    } else if t == seq![73u8] {
        Some(ValueKind::Int)
    } else if t == seq![74u8] {
        Some(ValueKind::Long)
    } else if t == seq![70u8] {
        Some(ValueKind::Float)
    } else if t == seq![68u8] {
        Some(ValueKind::Double)
    } else if t.len() >= 1 && (t[0] == 91u8 || t[0] == 76u8) {
        Some(ValueKind::Reference)
    } else {
        None
    }
}

pub fn value_kind(t: &Vec<u8>) -> (r: Option<ValueKind>)
    ensures
        r == spec_value_kind(t@),
{
    if t.len() == 1 {
        let c = t[0];
        proof {
            assert(t@ =~= seq![c]);
        }
        if c == 90 {
            return Some(ValueKind::Boolean);
        } else if c == 66 {
            return Some(ValueKind::Byte);
        } else if c == 67 {
            return Some(ValueKind::Char);
        } else if c == 83 {
            return Some(ValueKind::Short);
        } else if c == 73 {
            return Some(ValueKind::Int);
        } else if c == 74 {
            return Some(ValueKind::Long);
        } else if c == 70 {
            return Some(ValueKind::Float);
        } else if c == 68 {
            return Some(ValueKind::Double);
        }
    }
    if t.len() >= 1 && (t[0] == 91 || t[0] == 76) {
        proof {
            assert(t@ != seq![90u8] && t@ != seq![66u8] && t@ != seq![67u8] && t@ != seq![83u8]);
            assert(t@ != seq![73u8] && t@ != seq![74u8] && t@ != seq![70u8] && t@ != seq![68u8]);
        }
        return Some(ValueKind::Reference);
    }
    None
}

/// What the inspector reads for one parameter.
#[derive(Debug, Clone, Copy, PartialEq, Eq, Structural)]
pub enum SlotRead {
    /// The receiver, through the tool interface's local-instance query.
    Receiver,
    /// The local at a slot, read and boxed as the kind says.
    Local(ValueKind, usize),
    /// No value is read.
    Absent,
}

/// The read for parameter `p` of a frame.
pub open spec fn spec_slot_read(p: Param, is_native: bool, table_ok: bool) -> SlotRead {
    if is_native || !table_ok {
        SlotRead::Absent
    } else if p.slot == 0 && p.name@ == this_name() {
        SlotRead::Receiver
    } else {
        match spec_value_kind(p.typ@) {
            Some(k) => SlotRead::Local(k, p.slot),
            None => SlotRead::Absent,
        }
    }
}

/// Which value to read for each parameter. A native frame, or one whose local-variable
/// table disagrees with its descriptor, gets none.
pub fn plan_reads(info: &MethodInfo, is_native: bool, table_ok: bool) -> (r: Vec<SlotRead>)
    ensures
        r@.len() == info.params@.len(),
        forall|k: int| 0 <= k < r@.len() ==> #[trigger] r@[k] == spec_slot_read(info.params@[k], is_native, table_ok),
{
    let this = this_name_bytes();
    let mut r: Vec<SlotRead> = Vec::new();
    let mut k: usize = 0;
    while k < info.params.len()
        invariant
            0 <= k <= info.params@.len(),
            this@ == this_name(),
            r@.len() == k,
            forall|j: int| 0 <= j < k ==> #[trigger] r@[j] == spec_slot_read(info.params@[j], is_native, table_ok),
        decreases info.params@.len() - k,
    {
        let p = &info.params[k];
        let read = if is_native || !table_ok {
            SlotRead::Absent
        } else if p.slot == 0 && crate::names::bytes_equal(&p.name, &this) {
            SlotRead::Receiver
        } else {
            match value_kind(&p.typ) {
                Some(kind) => SlotRead::Local(kind, p.slot),
                None => SlotRead::Absent,
            }
        };
        r.push(read);
        k = k + 1;
    }
    r
}

/// One element of a captured frame's object array.
#[derive(Debug)]
pub enum Cell {
    /// A string: a parameter's name or type.
    Text(Vec<u8>),
    /// A handle on a captured value.
    Value(u64),
    /// The `<unknown>` marker of a value that was not captured.
    Unknown,
}

/// Lays out a frame's parameters as the capture hands them back: three cells each, name,
/// type, then the value or the unknown marker.
pub fn params_to_cells(info: &MethodInfo) -> (r: Vec<Cell>)
    requires
        3 * info.params@.len() <= usize::MAX,
    ensures
        r@.len() == 3 * info.params@.len(),
        forall|k: int| 0 <= k < info.params@.len() ==> {
            let p = #[trigger] info.params@[k];
            &&& r@[3 * k] matches Cell::Text(b) && b@ == p.name@
            &&& r@[3 * k + 1] matches Cell::Text(b) && b@ == p.typ@
            &&& match p.value {
                Some(v) => r@[3 * k + 2] == Cell::Value(v),
                None => r@[3 * k + 2] is Unknown,
            }
        },
{
    let mut r: Vec<Cell> = Vec::new();
    let mut k: usize = 0;
    while k < info.params.len()
        invariant
            0 <= k <= info.params@.len(),
            3 * info.params@.len() <= usize::MAX,
            r@.len() == 3 * k,
            forall|j: int| 0 <= j < k ==> {
                let p = #[trigger] info.params@[j];
                &&& r@[3 * j] matches Cell::Text(b) && b@ == p.name@
                &&& r@[3 * j + 1] matches Cell::Text(b) && b@ == p.typ@
                &&& match p.value {
                    Some(v) => r@[3 * j + 2] == Cell::Value(v),
                    None => r@[3 * j + 2] is Unknown,
                }
            },
        decreases info.params@.len() - k,
    {
        let p = &info.params[k];
        r.push(Cell::Text(copy(&p.name)));
        r.push(Cell::Text(copy(&p.typ)));
        match p.value {
            Some(v) => r.push(Cell::Value(v)),
            None => r.push(Cell::Unknown),
        }
        k = k + 1;
    }
    r
}

/// Checks the arguments of a stack capture: a thread is needed and the depth may not be
/// negative.
pub fn check_capture_args(thread_is_null: bool, max_depth: i32) -> (r: Result<(), ArgumentError>)
    ensures
        thread_is_null ==> r == Err::<(), ArgumentError>(ArgumentError::NullArg),
        !thread_is_null && max_depth < 0 ==> r == Err::<(), ArgumentError>(ArgumentError::BadArg),
        !thread_is_null && max_depth >= 0 ==> r is Ok,
{
    if thread_is_null {
        Err(ArgumentError::NullArg)
    } else if max_depth < 0 {
        Err(ArgumentError::BadArg)
    } else {
        Ok(())
    }
}

/// The depth a throwable's capture covers: its reported depth, or the default for 0.
pub fn fill_depth(reported: i32) -> (r: i32)
    ensures
        r == if reported == 0 { DEFAULT_MAX_STACK_DEPTH } else { reported },
{
    if reported == 0 {
        DEFAULT_MAX_STACK_DEPTH
    } else {
        reported
    }
}

/// The number of frames to ask for when filling a throwable of depth `depth`.
pub fn capture_depth(depth: i32) -> (r: i64)
    ensures
        r == depth as int + FILL_EXTRA_FRAMES as int,
{
    depth as i64 + FILL_EXTRA_FRAMES as i64
}

/// The frames from `skip` on.
pub fn skip_frames<T>(frames: Vec<T>, skip: usize) -> (r: Vec<T>)
    ensures
        r@ == if skip <= frames@.len() { frames@.subrange(skip as int, frames@.len() as int) } else { Seq::<T>::empty() },
{
    let mut frames = frames;
    if skip >= frames.len() {
        return Vec::new();
    }
    let rest = frames.split_off(skip);
    rest
}

/// The last `depth` frames, all of them where there are no more.
pub fn trim_head<T>(frames: Vec<T>, depth: usize) -> (r: Vec<T>)
    ensures
        r@ == if frames@.len() > depth { frames@.subrange(frames@.len() - depth, frames@.len() as int) } else { frames@ },
{
    let mut frames = frames;
    if frames.len() > depth {
        let cut = frames.len() - depth;
        let rest = frames.split_off(cut);
        return rest;
    }
    frames
}

/// Whether the trace accessor attaches parameters to the elements it got back: only to a
/// non-empty array that is not the one already stored on the throwable.
pub fn should_attach_params(is_null: bool, same_as_stored: bool, len: i32) -> (r: bool)
    ensures
        r == (!is_null && !same_as_stored && len != 0),
{
    !is_null && !same_as_stored && len != 0
}

/// The entry of the captured parameters for element `index`, none past their end.
pub fn param_info_index(index: i32, params_len: i32) -> (r: Option<i32>)
    ensures
        r == if 0 <= index < params_len { Some(index) } else { None::<i32> },
{
    if 0 <= index && index < params_len {
        Some(index)
    } else {
        None
    }
}

} // verus!
