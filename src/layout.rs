use vstd::prelude::*;

use vstd::string::StrSliceExecFns;

use crate::connect::{connect_grid, connect_keyboard_nodes};
use crate::direction::{positions_for, Edge, KeyboardStyle};
use crate::graph::{add_key_to, pairs_of, KeyGraph, Keyboard};
use crate::grid::grid_rows;
use crate::key::{Key, NO_CHAR};

verus! {

/// The keys that a layout starts from before its own keys are added.
#[derive(Debug, Clone, Copy, PartialEq, Eq, Structural)]
pub enum BaseKeys {
    /// The 26 letters, lower case unshifted and upper case shifted
    Alphabetic,
    /// The 10 digits, without shifted forms
    Numeric,
}

/// The `k`-th letter key: lower case, with upper case as shifted form.
pub open spec fn letter_key(k: int) -> (char, char) {
    (((97 + k) as u8) as char, ((65 + k) as u8) as char)
}

/// The `k`-th digit key, without shifted form.
pub open spec fn digit_key(k: int) -> (char, char) {
    (((48 + k) as u8) as char, NO_CHAR)
}

pub open spec fn letter_keys() -> Seq<(char, char)> {
    Seq::new(26, |k: int| letter_key(k))
}

pub open spec fn digit_keys() -> Seq<(char, char)> {
    Seq::new(10, |k: int| digit_key(k))
}

pub open spec fn base_keys(base: BaseKeys) -> Seq<(char, char)> {
    match base {
        BaseKeys::Alphabetic => letter_keys(),
        BaseKeys::Numeric => digit_keys(),
    }
}

/// `nodes` with each of `keys` added in turn, by key equality.
pub open spec fn add_keys_to(nodes: Seq<(char, char)>, keys: Seq<(char, char)>) -> Seq<
    (char, char),
>
    decreases keys.len(),
{
    if keys.len() == 0 {
        nodes
    } else {
        add_key_to(add_keys_to(nodes, keys.drop_last()), keys.last())
    }
}

/// The keys listed by a table of characters taken two at a time: the value,
/// then the shifted form.
pub open spec fn shift_pairs(table: Seq<char>) -> Seq<(char, char)> {
    Seq::new(table.len() / 2, |k: int| (table[2 * k], table[2 * k + 1]))
}

/// The graph of a layout: the base keys, then the extra keys, connected
/// along the grid that `text` describes.
pub open spec fn layout_graph(
    base: BaseKeys,
    extra: Seq<(char, char)>,
    text: Seq<char>,
    style: KeyboardStyle,
    create: bool,
) -> KeyGraph {
    connect_grid(
        KeyGraph {
            nodes: add_keys_to(add_keys_to(Seq::empty(), base_keys(base)), extra),
            edges: Map::empty(),
        },
        grid_rows(text),
        positions_for(style),
        create,
    )
}

/// `a` begins with `b`.
pub open spec fn starts_with(a: Seq<(char, char)>, b: Seq<(char, char)>) -> bool {
    b.len() <= a.len() && forall|i: int| 0 <= i < b.len() ==> #[trigger] a[i] == b[i]
}

proof fn lemma_add_keys_step(nodes: Seq<(char, char)>, keys: Seq<(char, char)>, k: int)
    requires
        0 <= k < keys.len(),
    ensures
        add_keys_to(nodes, keys.take(k + 1)) == add_key_to(
            add_keys_to(nodes, keys.take(k)),
            keys[k],
        ),
{
    assert(keys.take(k + 1).drop_last() =~= keys.take(k));
}

/// Adds each of `keys` in turn.
fn add_keys(graph: &mut Keyboard, keys: &Vec<Key>)
    requires
        old(graph)@.wf(),
    ensures
        final(graph)@.wf(),
        final(graph)@.nodes == add_keys_to(old(graph)@.nodes, pairs_of(keys@)),
        final(graph)@.edges == old(graph)@.edges,
{
    let ghost start = graph@.nodes;
    let mut i: usize = 0;
    while i < keys.len()
        invariant
            0 <= i <= keys@.len(),
            graph@.wf(),
            graph@.edges == old(graph)@.edges,
            start == old(graph)@.nodes,
            graph@.nodes == add_keys_to(start, pairs_of(keys@).take(i as int)),
        decreases keys.len() - i,
    {
        proof {
            lemma_add_keys_step(start, pairs_of(keys@), i as int);
        }
        graph.add_key(keys[i]);
        i = i + 1;
    }
    proof {
        assert(pairs_of(keys@).take(i as int) =~= pairs_of(keys@));
    }
}

/// Adds the letters a-z, each with its upper case as shifted form. QWERTY
/// and Dvorak share these keys.
pub fn add_alphabetics(graph: &mut Keyboard)
    requires
        old(graph)@.wf(),
    ensures
        final(graph)@.wf(),
        final(graph)@.nodes == add_keys_to(old(graph)@.nodes, letter_keys()),
        final(graph)@.edges == old(graph)@.edges,
{
    let mut keys: Vec<Key> = Vec::new();
    let mut k: u8 = 0;
    while k < 26
        invariant
            0 <= k <= 26,
            pairs_of(keys@) == letter_keys().take(k as int),
        decreases 26 - k,
    {
        let ghost before = keys@;
        let key = Key { value: (97u8 + k) as char, shifted: (65u8 + k) as char };
        keys.push(key);
        proof {
            assert(pairs_of(keys@) =~= pairs_of(before).push(key@));
            assert(letter_keys().take(k + 1) =~= letter_keys().take(k as int).push(
                letter_key(k as int),
            ));
        }
        k = k + 1;
    }
    proof {
        assert(letter_keys().take(26) =~= letter_keys());
    }
    add_keys(graph, &keys);
}

/// Adds the digits 0-9 without shifted forms, as numpads have them.
pub fn add_unshifted_number_keys(graph: &mut Keyboard)
    requires
        old(graph)@.wf(),
    ensures
        final(graph)@.wf(),
        final(graph)@.nodes == add_keys_to(old(graph)@.nodes, digit_keys()),
        final(graph)@.edges == old(graph)@.edges,
{
    let mut keys: Vec<Key> = Vec::new();
    let mut k: u8 = 0;
    while k < 10
        invariant
            0 <= k <= 10,
            pairs_of(keys@) == digit_keys().take(k as int),
        decreases 10 - k,
    {
        let ghost before = keys@;
        let key = Key { value: (48u8 + k) as char, shifted: NO_CHAR };
        keys.push(key);
        proof {
            assert(pairs_of(keys@) =~= pairs_of(before).push(key@));
            assert(digit_keys().take(k + 1) =~= digit_keys().take(k as int).push(
                digit_key(k as int),
            ));
        }
        k = k + 1;
    }
    proof {
        assert(digit_keys().take(10) =~= digit_keys());
    }
    add_keys(graph, &keys);
}

/// Adds the keys a layout lists beyond its base keys.
pub fn add_remaining_keys(keys: Vec<Key>, graph: &mut Keyboard)
    requires
        old(graph)@.wf(),
    ensures
        final(graph)@.wf(),
        final(graph)@.nodes == add_keys_to(old(graph)@.nodes, pairs_of(keys@)),
        final(graph)@.edges == old(graph)@.edges,
{
    add_keys(graph, &keys);
}

/// The keys of a table of characters taken two at a time: the value, then
/// the shifted form. A final unpaired character is ignored.
pub fn keys_from_table(table: &str) -> (r: Vec<Key>)
    ensures
        pairs_of(r@) == shift_pairs(table@),
{
    let n = table.unicode_len();
    let mut r: Vec<Key> = Vec::new();
    let mut k: usize = 0;
    while k < n / 2
        invariant
            n == table@.len(),
            0 <= k <= n / 2,
            pairs_of(r@) == shift_pairs(table@).take(k as int),
        decreases n / 2 - k,
    {
        let ghost before = r@;
        let key = Key { value: table.get_char(2 * k), shifted: table.get_char(2 * k + 1) };
        r.push(key);
        proof {
            assert(pairs_of(r@) =~= pairs_of(before).push(key@));
            assert(shift_pairs(table@).take(k + 1) =~= shift_pairs(table@).take(k as int).push(
                shift_pairs(table@)[k as int],
            ));
        }
        k = k + 1;
    }
    proof {
        assert(shift_pairs(table@).take(k as int) =~= shift_pairs(table@));
    }
    r
}

/// Builds a layout's graph: seeds the base keys, then the extra keys, then
/// connects the keys along the grid that `grid` describes.
pub fn build_layout(
    base: BaseKeys,
    extra_keys: Vec<Key>,
    grid: &str,
    style: KeyboardStyle,
    add_missing_keys: bool,
) -> (r: Keyboard)
    ensures
        r@.wf(),
        r@ == layout_graph(base, pairs_of(extra_keys@), grid@, style, add_missing_keys),
{
    let mut result = Keyboard::new();
    assert(result@.nodes =~= Seq::<(char, char)>::empty());
    match base {
        BaseKeys::Alphabetic => add_alphabetics(&mut result),
        BaseKeys::Numeric => add_unshifted_number_keys(&mut result),
    }
    add_remaining_keys(extra_keys, &mut result);
    proof {
        assert(result@.edges =~= Map::<((char, char), (char, char)), Edge>::empty());
        assert(result@ == KeyGraph {
            nodes: add_keys_to(add_keys_to(Seq::empty(), base_keys(base)), pairs_of(extra_keys@)),
            edges: Map::empty(),
        });
    }
    connect_keyboard_nodes(grid, &mut result, style, add_missing_keys);
    result
}

} // verus!
