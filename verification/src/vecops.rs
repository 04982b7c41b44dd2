//! Range operations on vectors shared by the buffer implementations:
//! replacing a range, and moving a range to another position.
use vstd::prelude::*;

verus! {

/// `s` with `s[start..end]` replaced by `new`.
pub open spec fn spliced<T>(s: Seq<T>, start: int, end: int, new: Seq<T>) -> Seq<T> {
    s.subrange(0, start) + new + s.subrange(end, s.len() as int)
}

/// `s` with the block `s[a..b]` moved so that it follows what was element
/// `index - 1` (to the very front when `index` is 0).
///
/// Only meaningful when `index <= a` (moving backwards) or `index >= b`
/// (moving forwards).
pub open spec fn moved<T>(s: Seq<T>, a: int, b: int, index: int) -> Seq<T> {
    if index <= a {
        s.subrange(0, index) + s.subrange(a, b) + s.subrange(index, a) + s.subrange(b, s.len() as int)
    } else {
        s.subrange(0, a) + s.subrange(b, index) + s.subrange(a, b) + s.subrange(index, s.len() as int)
    }
}

/// Replaces `v[start..end]` with `new`, returning what was there.
pub fn splice<T>(v: &mut Vec<T>, start: usize, end: usize, new: Vec<T>) -> (removed: Vec<T>)
    requires
        start <= end <= old(v)@.len(),
    ensures
        final(v)@ == spliced(old(v)@, start as int, end as int, new@),
        removed@ == old(v)@.subrange(start as int, end as int),
{
    let mut new = new;
    let mut tail = v.split_off(end);
    let removed = v.split_off(start);
    v.append(&mut new);
    v.append(&mut tail);
    removed
}

/// Inserts `new` so that it starts at position `index`.
pub fn insert_all<T>(v: &mut Vec<T>, index: usize, new: Vec<T>)
    requires
        index <= old(v)@.len(),
    ensures
        final(v)@ == spliced(old(v)@, index as int, index as int, new@),
{
    let _ = splice(v, index, index, new);
}

/// Moves the block `v[a..b]` to follow element `index - 1`.
pub fn move_block<T>(v: &mut Vec<T>, a: usize, b: usize, index: usize)
    requires
        a <= b <= old(v)@.len(),
        index <= old(v)@.len(),
        index <= a || b <= index,
    ensures
        final(v)@ == moved(old(v)@, a as int, b as int, index as int),
{
    if index <= a {
        let mut tail = v.split_off(b);
        let mut data = v.split_off(a);
        let mut middle = v.split_off(index);
        v.append(&mut data);
        v.append(&mut middle);
        v.append(&mut tail);
    } else {
        let mut tail = v.split_off(index);
        let mut middle = v.split_off(b);
        let mut data = v.split_off(a);
        v.append(&mut middle);
        v.append(&mut data);
        v.append(&mut tail);
    }
}

/// Moving a block and moving it back restores the sequence: when the block
/// `s[a..b]` is moved backwards to `index <= a`, it then occupies
/// `[index, index + b - a)`, and moving that block to `b` gives `s` again.
pub proof fn lemma_move_back_restores<T>(s: Seq<T>, a: int, b: int, index: int)
    requires
        0 <= index <= a <= b <= s.len(),
    ensures
        moved(moved(s, a, b, index), index, index + (b - a), b) =~= s,
{
    let m = moved(s, a, b, index);
    assert(m.len() == s.len());
    let r = moved(m, index, index + (b - a), b);
    if b <= index {
        assert(index == a && a == b);
    }
    assert forall|i: int| 0 <= i < s.len() implies r[i] == s[i] by {
        if b <= index {
        } else {
            if i < index {
            } else if i < index + (b - a) {
            } else if i < b {
            } else {
            }
        }
    }
}

} // verus!
