use vstd::prelude::*;

verus! {

/// No action.
pub const DND_NONE: u32 = 0;

/// Copy the data.
pub const DND_COPY: u32 = 1;

/// Move the data.
pub const DND_MOVE: u32 = 2;

/// Ask the user which action to take.
pub const DND_ASK: u32 = 4;

/// Every action bit.
pub const DND_ALL: u32 = 7;

/// `mask` holds only bits of `DND_ALL`.
pub open spec fn valid_mask(mask: u32) -> bool {
    mask & !DND_ALL == 0
}

/// `action` is exactly one bit of `DND_ALL`.
pub open spec fn is_single_action(action: u32) -> bool {
    action == DND_COPY || action == DND_MOVE || action == DND_ASK
}

/// `mask` contains every bit of `bits`.
pub open spec fn contains_bits(mask: u32, bits: u32) -> bool {
    mask & bits == bits
}

/// `bits` has exactly one bit set.
pub open spec fn one_bit(bits: u32) -> bool {
    bits != 0 && bits & bits.wrapping_sub(1) == 0
}

/// `b` is the lowest set bit of `mask`: a single bit of `mask` below which
/// `mask` has no bit set.
pub open spec fn is_lowest_bit(mask: u32, b: u32) -> bool {
    one_bit(b) && mask & b == b && mask & b.wrapping_sub(1) == 0
}

/// The lowest set bit of `mask` (0 for an empty mask).
pub open spec fn lowest_bit(mask: u32) -> u32 {
    if mask == 0 {
        0
    } else {
        choose|b: u32| is_lowest_bit(mask, b)
    }
}

/// `preferred` is an action, and both sides support it.
pub open spec fn shares_preferred(common: u32, preferred: u32) -> bool {
    preferred != DND_NONE && contains_bits(common, preferred)
}

/// The action the server selects: the receiver's preferred action when both
/// sides support it, otherwise the lowest action both sides support, or none.
pub open spec fn spec_select_action(source: u32, receiver: u32, preferred: u32) -> u32 {
    let common = source & receiver;
    if shares_preferred(common, preferred) {
        preferred
    } else if common != 0 {
        lowest_bit(common)
    } else {
        DND_NONE
    }
}

/// A non-empty mask has exactly one lowest set bit, which isolating the
/// lowest bit by two's complement yields.
proof fn lemma_lowest_bit(mask: u32)
    requires
        mask != 0,
    ensures
        lowest_bit(mask) == mask & (!mask).wrapping_add(1),
        is_lowest_bit(mask, lowest_bit(mask)),
{
    let v = mask & (!mask).wrapping_add(1);
    assert(v != 0 && v & v.wrapping_sub(1) == 0 && mask & v == v && mask & v.wrapping_sub(1) == 0)
        by (bit_vector)
        requires
            mask != 0,
            v == mask & (!mask).wrapping_add(1),
    ;
    assert(is_lowest_bit(mask, v));
    let b = lowest_bit(mask);
    assert(is_lowest_bit(mask, b));
    assert(b == v) by (bit_vector)
        requires
            b != 0 && b & b.wrapping_sub(1) == 0 && mask & b == b && mask & b.wrapping_sub(1) == 0,
            v != 0 && v & v.wrapping_sub(1) == 0 && mask & v == v && mask & v.wrapping_sub(1) == 0,
    ;
}

/// The selected action lies within the actions both sides support (or is
/// none); it is the receiver's preferred action whenever that is an action
/// both sides support, and otherwise it is a single action exactly when
/// both sides have an action in common, namely the lowest of them.
pub proof fn lemma_select_action(source: u32, receiver: u32, preferred: u32)
    ensures
        ({
            let r = spec_select_action(source, receiver, preferred);
            let common = source & receiver;
            &&& contains_bits(common, r)
            &&& shares_preferred(common, preferred) ==> r == preferred
            &&& !shares_preferred(common, preferred) ==> (one_bit(r) <==> common != 0)
            &&& !shares_preferred(common, preferred) && common != 0 ==> is_lowest_bit(common, r)
        }),
{
    let common = source & receiver;
    if common != 0 {
        lemma_lowest_bit(common);
    }
    assert(common & 0 == 0) by (bit_vector);
    assert(!(0u32 != 0));
}

/// With valid masks and a preferred action that is none or a single
/// action, the selected action is none or a single action.
pub proof fn lemma_select_action_single(source: u32, receiver: u32, preferred: u32)
    requires
        valid_mask(source),
        valid_mask(receiver),
        preferred == DND_NONE || is_single_action(preferred),
    ensures
        ({
            let r = spec_select_action(source, receiver, preferred);
            r == DND_NONE || is_single_action(r)
        }),
{
    let common = source & receiver;
    assert(common & !7u32 == 0) by (bit_vector)
        requires
            source & !7u32 == 0,
            receiver & !7u32 == 0,
            common == source & receiver;
    if common != 0 {
        lemma_lowest_bit(common);
        let low = lowest_bit(common);
        assert(low == 1 || low == 2 || low == 4) by (bit_vector)
            requires
                common & !7u32 == 0,
                common != 0,
                low == common & (!common).wrapping_add(1);
    }
}

/// Whether `mask` contains every bit of `bits`.
pub fn contains(mask: u32, bits: u32) -> (r: bool)
    ensures
        r == contains_bits(mask, bits),
{
    mask & bits == bits
}

/// Resolves the action of a drag-and-drop session from the actions the
/// source offers, the actions the receiver accepts and the receiver's
/// preferred action.
pub fn select_action(source: u32, receiver: u32, preferred: u32) -> (r: u32)
    ensures
        r == spec_select_action(source, receiver, preferred),
{
    let common = source & receiver;
    if preferred != DND_NONE && contains(common, preferred) {
        preferred
    } else if common != 0 {
        proof {
            lemma_lowest_bit(common);
        }
        common & (!common).wrapping_add(1)
    } else {
        DND_NONE
    }
}

} // verus!
