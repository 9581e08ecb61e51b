use vstd::prelude::*;

use crate::direction::KeyboardStyle;
use crate::graph::Keyboard;
use crate::layout::{
    build_layout, digit_keys, keys_from_table, layout_graph, letter_keys, shift_pairs,
    starts_with, BaseKeys,
};

verus! {

/// The rows of the US QWERTY keyboard; a leading `\0` offsets a slanted row.
pub const QWERTY_US_GRID: &'static str = "` 1 2 3 4 5 6 7 8 9 0 - =\n\0 q w e r t y u i o p [ ] \\\n\0 a s d f g h j k l ; '\n\0 z x c v b n m , . /";

/// The symbol keys of US QWERTY and of Dvorak: each character, then its
/// shifted form.
pub const US_SHIFTS: &'static str = "`~1!2@3#4$5%6^7&8*9(0)-_=+[{]}\\|;:'\",<.>/?";

/// The rows of the UK QWERTY keyboard.
pub const QWERTY_UK_GRID: &'static str = "` 1 2 3 4 5 6 7 8 9 0 - =\n\0 q w e r t y u i o p [ ] \\\n\0 a s d f g h j k l ; ' #\n\0 z x c v b n m , . /";

/// The symbol keys of UK QWERTY: each character, then its shifted form.
pub const UK_SHIFTS: &'static str = "`¬1!2\"3£4$5%6^7&8*9(0)-_=+[{]}\\|;:'@,<.>/?#~";

/// The rows of the Dvorak keyboard.
pub const DVORAK_GRID: &'static str = "` 1 2 3 4 5 6 7 8 9 0 [ ]\n\0 ' , . p y f g c r l / = \\\n\0 a o e u i d h t n s -\n\0 ; q j k x b m w v z";

/// Numpads list no keys beyond their digits.
pub const NUMPAD_SHIFTS: &'static str = "";

/// The rows of a standard numpad.
pub const STANDARD_NUMPAD_GRID: &'static str = "\0 / * -\n7 8 9 +\n4 5 6\n1 2 3\n\0 0 .";

/// The rows of an Apple Mac numpad.
pub const MAC_NUMPAD_GRID: &'static str = "\0 = / *\n7 8 9 -\n4 5 6 +\n1 2 3\n\0 0 .";

/// Generates the graph of the US QWERTY layout; every call gives the same graph.
pub fn generate_qwerty_us() -> (r: Keyboard)
    ensures
        r@.wf(),
        r@ == layout_graph(
            BaseKeys::Alphabetic,
            shift_pairs(US_SHIFTS@),
            QWERTY_US_GRID@,
            KeyboardStyle::Slanted,
            false,
        ),
        starts_with(r@.nodes, letter_keys()),
{
    let r = build_layout(
        BaseKeys::Alphabetic,
        keys_from_table(US_SHIFTS),
        QWERTY_US_GRID,
        KeyboardStyle::Slanted,
        false,
    );
    proof {
        crate::laws::lemma_layout_starts_with_base(
            BaseKeys::Alphabetic,
            shift_pairs(US_SHIFTS@),
            QWERTY_US_GRID@,
            KeyboardStyle::Slanted,
            false,
        );
    }
    r
}

/// Generates the graph of the UK QWERTY layout; every call gives the same graph.
pub fn generate_qwerty_uk() -> (r: Keyboard)
    ensures
        r@.wf(),
        r@ == layout_graph(
            BaseKeys::Alphabetic,
            shift_pairs(UK_SHIFTS@),
            QWERTY_UK_GRID@,
            KeyboardStyle::Slanted,
            false,
        ),
        starts_with(r@.nodes, letter_keys()),
{
    let r = build_layout(
        BaseKeys::Alphabetic,
        keys_from_table(UK_SHIFTS),
        QWERTY_UK_GRID,
        KeyboardStyle::Slanted,
        false,
    );
    proof {
        crate::laws::lemma_layout_starts_with_base(
            BaseKeys::Alphabetic,
            shift_pairs(UK_SHIFTS@),
            QWERTY_UK_GRID@,
            KeyboardStyle::Slanted,
            false,
        );
    }
    r
}

/// Generates the graph of the Dvorak layout; every call gives the same graph.
pub fn generate_dvorak() -> (r: Keyboard)
    ensures
        r@.wf(),
        r@ == layout_graph(
            BaseKeys::Alphabetic,
            shift_pairs(US_SHIFTS@),
            DVORAK_GRID@,
            KeyboardStyle::Slanted,
            false,
        ),
        starts_with(r@.nodes, letter_keys()),
{
    let r = build_layout(
        BaseKeys::Alphabetic,
        keys_from_table(US_SHIFTS),
        DVORAK_GRID,
        KeyboardStyle::Slanted,
        false,
    );
    proof {
        crate::laws::lemma_layout_starts_with_base(
            BaseKeys::Alphabetic,
            shift_pairs(US_SHIFTS@),
            DVORAK_GRID@,
            KeyboardStyle::Slanted,
            false,
        );
    }
    r
}

/// Generates the graph of the standard numpad: the digits, and a key of its own for each
/// other character of the grid; every call gives the same graph.
pub fn generate_standard_numpad() -> (r: Keyboard)
    ensures
        r@.wf(),
        r@ == layout_graph(
            BaseKeys::Numeric,
            shift_pairs(NUMPAD_SHIFTS@),
            STANDARD_NUMPAD_GRID@,
            KeyboardStyle::Aligned,
            true,
        ),
        starts_with(r@.nodes, digit_keys()),
{
    let r = build_layout(
        BaseKeys::Numeric,
        keys_from_table(NUMPAD_SHIFTS),
        STANDARD_NUMPAD_GRID,
        KeyboardStyle::Aligned,
        true,
    );
    proof {
        crate::laws::lemma_layout_starts_with_base(
            BaseKeys::Numeric,
            shift_pairs(NUMPAD_SHIFTS@),
            STANDARD_NUMPAD_GRID@,
            KeyboardStyle::Aligned,
            true,
        );
    }
    r
}

/// Generates the graph of the Apple Mac numpad: the digits, and a key of its own for each
/// other character of the grid; every call gives the same graph.
pub fn generate_mac_numpad() -> (r: Keyboard)
    ensures
        r@.wf(),
        r@ == layout_graph(
            BaseKeys::Numeric,
            shift_pairs(NUMPAD_SHIFTS@),
            MAC_NUMPAD_GRID@,
            KeyboardStyle::Aligned,
            true,
        ),
        starts_with(r@.nodes, digit_keys()),
{
    let r = build_layout(
        BaseKeys::Numeric,
        keys_from_table(NUMPAD_SHIFTS),
        MAC_NUMPAD_GRID,
        KeyboardStyle::Aligned,
        true,
    );
    proof {
        crate::laws::lemma_layout_starts_with_base(
            BaseKeys::Numeric,
            shift_pairs(NUMPAD_SHIFTS@),
            MAC_NUMPAD_GRID@,
            KeyboardStyle::Aligned,
            true,
        );
    }
    r
}

} // verus!
