//! Method descriptors: their parameter types, in order, with the local slot of each.
use vstd::prelude::*;

verus! {

pub open spec fn is_primitive(c: u8) -> bool {
    c == 66u8 || c == 67u8 || c == 68u8 || c == 70u8 || c == 73u8 || c == 74u8 || c == 83u8 || c == 90u8
}

/// The first `;` at or after `i`.
pub open spec fn semicolon_from(s: Seq<u8>, i: int) -> Option<int>
    decreases s.len() - i,
{
    if i < 0 || i >= s.len() {
        None
    } else if s[i] == 59u8 {
        Some(i)
    } else {
        semicolon_from(s, i + 1)
    }
}

/// The length of the field type that starts at `i`: a primitive letter, `L` up to and
/// including the next `;`, or `[` followed by a field type.
pub open spec fn type_len(s: Seq<u8>, i: int) -> Option<int>
    decreases s.len() - i,
{
    if i < 0 || i >= s.len() {
        None
    } else if is_primitive(s[i]) {
        Some(1)
    } else if s[i] == 76u8 {
        match semicolon_from(s, i + 1) {
            Some(j) => Some(j - i + 1),
            None => None,
        }
    } else if s[i] == 91u8 {
        match type_len(s, i + 1) {
            Some(n) => Some(n + 1),
            None => None,
        }
    } else {
        None
    }
}

/// The parameter types from `i` up to the closing `)`.
pub open spec fn types_from(s: Seq<u8>, i: int) -> Option<Seq<Seq<u8>>>
    decreases s.len() - i,
{
    if i < 0 || i >= s.len() {
        None
    } else if s[i] == 41u8 {
        Some(Seq::empty())
    } else {
        match type_len(s, i) {
            Some(n) => if n >= 1 && i + n <= s.len() {
                match types_from(s, i + n) {
                    Some(rest) => Some(seq![s.subrange(i, i + n)] + rest),
                    None => None,
                }
            } else {
                None
            },
            None => None,
        }
    }
}

/// The parameter types of a method descriptor `(T1T2...)R`, or `None` where it is not one.
pub open spec fn descriptor_types(s: Seq<u8>) -> Option<Seq<Seq<u8>>> {
    if s.len() >= 1 && s[0] == 40u8 {
        types_from(s, 1)
    } else {
        None
    }
}

/// Number of local slots a value of type `t` takes: two for long and double.
pub open spec fn slot_width(t: Seq<u8>) -> int {
    if t == seq![74u8] || t == seq![68u8] {
        2
    } else {
        1
    }
}

/// The slot of the parameter after those of `types`, counting from `base`.
pub open spec fn slot_after(types: Seq<Seq<u8>>, base: int) -> int
    decreases types.len(),
{
    if types.len() == 0 {
        base
    } else {
        slot_after(types.drop_last(), base) + slot_width(types.last())
    }
}

pub proof fn lemma_slot_after_push(types: Seq<Seq<u8>>, t: Seq<u8>, base: int)
    ensures
        slot_after(types.push(t), base) == slot_after(types, base) + slot_width(t),
{
    assert(types.push(t).drop_last() =~= types);
}

pub proof fn lemma_slot_after_grows(types: Seq<Seq<u8>>, base: int)
    ensures
        slot_after(types, base) >= base + types.len(),
        slot_after(types, base) <= base + 2 * types.len(),
    decreases types.len(),
{
    if types.len() > 0 {
        lemma_slot_after_grows(types.drop_last(), base);
    }
}

/// The `;` at or after `i`.
fn find_semicolon(s: &Vec<u8>, i: usize) -> (r: Option<usize>)
    ensures
        match semicolon_from(s@, i as int) {
            Some(j) => r == Some(j as usize),
            None => r is None,
        },
    decreases s@.len() - i,
{
    if i >= s.len() {
        return None;
    }
    if s[i] == 59 {
        return Some(i);
    }
    find_semicolon(s, i + 1)
}

/// The length of the field type at `i`.
fn token_len(s: &Vec<u8>, i: usize) -> (r: Option<usize>)
    ensures
        match type_len(s@, i as int) {
            Some(n) => r == Some(n as usize) && i + n <= s@.len() && n >= 1,
            None => r is None,
        },
    decreases s@.len() - i,
{
    if i >= s.len() {
        return None;
    }
    let c = s[i];
    if c == 66 || c == 67 || c == 68 || c == 70 || c == 73 || c == 74 || c == 83 || c == 90 {
        return Some(1);
    }
    if c == 76 {
        return match find_semicolon(s, i + 1) {
            Some(j) => {
                proof {
                    lemma_semicolon_bound(s@, i as int + 1);
                }
                Some(j - i + 1)
            },
            None => None,
        };
    }
    if c == 91 {
        return match token_len(s, i + 1) {
            Some(n) => Some(n + 1),
            None => None,
        };
    }
    None
}

proof fn lemma_semicolon_bound(s: Seq<u8>, i: int)
    ensures
        semicolon_from(s, i) matches Some(j) ==> i <= j < s.len(),
    decreases s.len() - i,
{
    if 0 <= i < s.len() && s[i] != 59u8 {
        lemma_semicolon_bound(s, i + 1);
    }
}

/// Splits a method descriptor into its parameter types. Fails where the descriptor does
/// not open with `(`, holds a character that starts no type, or ends before `)`.
pub fn parameter_types(desc: &Vec<u8>) -> (r: Option<Vec<Vec<u8>>>)
    ensures
        match descriptor_types(desc@) {
            Some(ts) => r matches Some(v) && v@.len() == ts.len() && forall|k: int| 0 <= k < ts.len() ==> (#[trigger] v@[k])@ == ts[k],
            None => r is None,
        },
{
    if desc.len() == 0 || desc[0] != 40 {
        return None;
    }
    let mut out: Vec<Vec<u8>> = Vec::new();
    let ghost done: Seq<Seq<u8>> = Seq::empty();
    let mut i: usize = 1;
    loop
        invariant
            1 <= i <= desc@.len(),
            desc@.len() >= 1 && desc@[0] == 40u8,
            out@.len() == done.len(),
            forall|k: int| 0 <= k < done.len() ==> (#[trigger] out@[k])@ == done[k],
            match types_from(desc@, 1) {
                Some(all) => types_from(desc@, i as int) matches Some(rest) && all == done + rest,
                None => types_from(desc@, i as int) is None,
            },
        decreases desc@.len() - i,
    {
        if i >= desc.len() {
            return None;
        }
        if desc[i] == 41 {
            proof {
                assert(done + Seq::<Seq<u8>>::empty() =~= done);
            }
            return Some(out);
        }
        let n = match token_len(desc, i) {
            Some(n) => n,
            None => return None,
        };
        let len = desc.len();
        let end = i + n;
        let mut t: Vec<u8> = Vec::new();
        let mut j: usize = i;
        while j < end
            invariant
                end == i + n,
                i <= j <= end,
                end <= desc@.len(),
                t@ == desc@.subrange(i as int, j as int),
            decreases end - j,
        {
            t.push(desc[j]);
            j = j + 1;
            proof {
                assert(t@ =~= desc@.subrange(i as int, j as int));
            }
        }
        proof {
            let tok = desc@.subrange(i as int, i + n);
            match types_from(desc@, 1) {
                Some(all) => {
                    let rest = types_from(desc@, i as int)->0;
                    let rest2 = types_from(desc@, i + n)->0;
                    assert(rest == seq![tok] + rest2);
                    assert(all == done.push(tok) + rest2) by {
                        assert(done + (seq![tok] + rest2) =~= done.push(tok) + rest2);
                    }
                },
                None => {},
            }
            done = done.push(tok);
        }
        out.push(t);
        i = i + n;
        if i >= desc.len() {
            return None;
        }
    }
}

/// A long or double parameter takes two slots: the parameter after one at position `k`
/// sits two slots further on.
pub proof fn lemma_wide_parameter_slot(types: Seq<Seq<u8>>, k: int, base: int)
    requires
        0 <= k < types.len(),
        types[k] == seq![74u8] || types[k] == seq![68u8],
    ensures
        slot_after(types.subrange(0, k + 1), base) == slot_after(types.subrange(0, k), base) + 2,
{
    assert(types.subrange(0, k + 1) =~= types.subrange(0, k).push(types[k]));
    lemma_slot_after_push(types.subrange(0, k), types[k], base);
}

} // verus!
