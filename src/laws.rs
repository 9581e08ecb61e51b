use vstd::prelude::*;

use crate::connect::{
    cell_key, connect_cell, connect_row_from, connect_rows_from, link_from, link_towards,
    neighbour_of,
};
use crate::graph::{add_key_to, first_answer_from, link, lookup, with_node, KeyGraph};
use crate::direction::{positions_for, Edge, KeyboardStyle};
use crate::grid::grid_rows;
use crate::key::{answers_to, same_key, NO_CHAR};
use crate::layout::{
    add_keys_to, digit_key, digit_keys, layout_graph, letter_key, letter_keys, starts_with,
    BaseKeys, base_keys,
};

verus! {

proof fn lemma_starts_with_trans(a: Seq<(char, char)>, b: Seq<(char, char)>, c: Seq<(char, char)>)
    requires
        starts_with(a, b),
        starts_with(b, c),
    ensures
        starts_with(a, c),
{
    assert forall|i: int| 0 <= i < c.len() implies #[trigger] a[i] == c[i] by {
        assert(a[i] == b[i]);
    }
}

proof fn lemma_with_node_starts(nodes: Seq<(char, char)>, k: (char, char))
    ensures
        starts_with(with_node(nodes, k), nodes),
{
}

proof fn lemma_link_starts(g: KeyGraph, a: (char, char), b: (char, char), w: Edge)
    ensures
        starts_with(link(g, a, b, w).nodes, g.nodes),
{
    lemma_with_node_starts(g.nodes, a);
    lemma_with_node_starts(with_node(g.nodes, a), b);
    lemma_starts_with_trans(link(g, a, b, w).nodes, with_node(g.nodes, a), g.nodes);
}

proof fn lemma_link_from_starts(
    g: KeyGraph,
    rows: Seq<Seq<char>>,
    i: int,
    j: int,
    origin: (char, char),
    table: Seq<Edge>,
    create: bool,
    t: int,
)
    ensures
        starts_with(link_from(g, rows, i, j, origin, table, create, t).nodes, g.nodes),
    decreases table.len() - t,
{
    if 0 <= t < table.len() {
        let g1 = link_towards(g, rows, i, j, origin, table[t], create);
        match neighbour_of(rows, i, j, table[t]) {
            Some(c) => match cell_key(g.nodes, c, create) {
                Some(n) => lemma_link_starts(g, origin, n, table[t]),
                None => {},
            },
            None => {},
        }
        lemma_link_from_starts(g1, rows, i, j, origin, table, create, t + 1);
        lemma_starts_with_trans(
            link_from(g1, rows, i, j, origin, table, create, t + 1).nodes,
            g1.nodes,
            g.nodes,
        );
    }
}

proof fn lemma_connect_rows_starts(
    g: KeyGraph,
    rows: Seq<Seq<char>>,
    i: int,
    table: Seq<Edge>,
    create: bool,
)
    ensures
        starts_with(connect_rows_from(g, rows, i, table, create).nodes, g.nodes),
    decreases rows.len() - i,
{
    if 0 <= i < rows.len() {
        let g1 = connect_row_from(g, rows, i, 0, table, create);
        lemma_connect_row_starts(g, rows, i, 0, table, create);
        lemma_connect_rows_starts(g1, rows, i + 1, table, create);
        lemma_starts_with_trans(
            connect_rows_from(g1, rows, i + 1, table, create).nodes,
            g1.nodes,
            g.nodes,
        );
    }
}

proof fn lemma_connect_row_starts(
    g: KeyGraph,
    rows: Seq<Seq<char>>,
    i: int,
    j: int,
    table: Seq<Edge>,
    create: bool,
)
    ensures
        starts_with(connect_row_from(g, rows, i, j, table, create).nodes, g.nodes),
    decreases rows[i].len() - j,
{
    if 0 <= i < rows.len() && 0 <= j < rows[i].len() {
        let g1 = connect_cell(g, rows, i, j, table, create);
        match cell_key(g.nodes, rows[i][j], create) {
            Some(o) => lemma_link_from_starts(g, rows, i, j, o, table, create, 0),
            None => {},
        }
        lemma_connect_row_starts(g1, rows, i, j + 1, table, create);
        lemma_starts_with_trans(
            connect_row_from(g1, rows, i, j + 1, table, create).nodes,
            g1.nodes,
            g.nodes,
        );
    }
}

proof fn lemma_add_keys_starts(nodes: Seq<(char, char)>, keys: Seq<(char, char)>)
    ensures
        starts_with(add_keys_to(nodes, keys), nodes),
    decreases keys.len(),
{
    if keys.len() > 0 {
        let n1 = add_keys_to(nodes, keys.drop_last());
        lemma_add_keys_starts(nodes, keys.drop_last());
        lemma_starts_with_trans(add_key_to(n1, keys.last()), n1, nodes);
    }
}

/// Seeding keys whose values are pairwise distinct into an empty graph
/// keeps all of them, in order.
proof fn lemma_seed_distinct(keys: Seq<(char, char)>)
    requires
        forall|i: int, j: int| 0 <= i < j < keys.len() ==> (#[trigger] keys[i]).0 != (#[trigger] keys[j]).0,
    ensures
        add_keys_to(Seq::empty(), keys) == keys,
    decreases keys.len(),
{
    if keys.len() > 0 {
        let init = keys.drop_last();
        lemma_seed_distinct(init);
        assert(!exists|i: int| 0 <= i < init.len() && same_key(#[trigger] init[i], keys.last())) by {
            assert forall|i: int| 0 <= i < init.len() implies !same_key(#[trigger] init[i], keys.last()) by {
                assert(init[i] == keys[i]);
            }
        }
        assert(init.push(keys.last()) =~= keys);
    }
}

/// The graph of any layout begins with its base keys, in order.
pub proof fn lemma_layout_starts_with_base(
    base: BaseKeys,
    extra: Seq<(char, char)>,
    text: Seq<char>,
    style: KeyboardStyle,
    create: bool,
)
    ensures
        starts_with(layout_graph(base, extra, text, style, create).nodes, base_keys(base)),
{
    let keys = base_keys(base);
    assert forall|i: int, j: int| 0 <= i < j < keys.len() implies (#[trigger] keys[i]).0 != (
    #[trigger] keys[j]).0 by {}
    lemma_seed_distinct(keys);
    let seeded = add_keys_to(keys, extra);
    lemma_add_keys_starts(keys, extra);
    let g = KeyGraph { nodes: seeded, edges: Map::empty() };
    lemma_connect_rows_starts(g, grid_rows(text), 0, positions_for(style), create);
    lemma_starts_with_trans(layout_graph(base, extra, text, style, create).nodes, seeded, keys);
}

/// The search from `i` finds position `k` when the key there answers to `c`
/// and none from `i` up to it does.
proof fn lemma_first_answer_at(nodes: Seq<(char, char)>, c: char, i: int, k: int)
    requires
        0 <= i <= k < nodes.len(),
        answers_to(nodes[k], c),
        forall|m: int| i <= m < k ==> !answers_to(#[trigger] nodes[m], c),
    ensures
        first_answer_from(nodes, c, i) == Some(k),
    decreases k - i,
{
    if i < k {
        lemma_first_answer_at(nodes, c, i + 1, k);
    }
}

/// On a keyboard that begins with the letter keys, each letter, lower or
/// upper case, finds its own letter key.
pub proof fn lemma_letters_found(nodes: Seq<(char, char)>, k: int)
    requires
        starts_with(nodes, letter_keys()),
        0 <= k < 26,
    ensures
        lookup(nodes, letter_key(k).0) == Some(letter_key(k)),
        lookup(nodes, letter_key(k).1) == Some(letter_key(k)),
{
    assert(nodes[k] == letter_keys()[k]);
    assert forall|m: int| 0 <= m < k implies !answers_to(#[trigger] nodes[m], letter_key(k).0)
        && !answers_to(nodes[m], letter_key(k).1) by {
        assert(nodes[m] == letter_keys()[m]);
    }
    lemma_first_answer_at(nodes, letter_key(k).0, 0, k);
    lemma_first_answer_at(nodes, letter_key(k).1, 0, k);
}

/// On a keyboard that begins with the digit keys, each digit finds its own
/// digit key, which has no shifted form.
pub proof fn lemma_digits_found(nodes: Seq<(char, char)>, k: int)
    requires
        starts_with(nodes, digit_keys()),
        0 <= k < 10,
    ensures
        lookup(nodes, digit_key(k).0) == Some(digit_key(k)),
        digit_key(k).1 == NO_CHAR,
{
    assert(nodes[k] == digit_keys()[k]);
    assert forall|m: int| 0 <= m < k implies !answers_to(#[trigger] nodes[m], digit_key(k).0) by {
        assert(nodes[m] == digit_keys()[m]);
    }
    lemma_first_answer_at(nodes, digit_key(k).0, 0, k);
}

/// On every layout built on the letters, both cases of each letter find
/// that letter's key: lower case value, upper case shifted form.
pub proof fn lemma_alphabetic_layout_letters(
    extra: Seq<(char, char)>,
    text: Seq<char>,
    style: KeyboardStyle,
    create: bool,
    k: int,
)
    requires
        0 <= k < 26,
    ensures
        lookup(
            layout_graph(BaseKeys::Alphabetic, extra, text, style, create).nodes,
            letter_key(k).0,
        ) == Some(letter_key(k)),
        lookup(
            layout_graph(BaseKeys::Alphabetic, extra, text, style, create).nodes,
            letter_key(k).1,
        ) == Some(letter_key(k)),
{
    lemma_layout_starts_with_base(BaseKeys::Alphabetic, extra, text, style, create);
    lemma_letters_found(layout_graph(BaseKeys::Alphabetic, extra, text, style, create).nodes, k);
}

/// On every layout built on the digits, each digit finds its own key, which
/// has no shifted form, and `NO_CHAR` finds no key.
pub proof fn lemma_numeric_layout_digits(
    extra: Seq<(char, char)>,
    text: Seq<char>,
    style: KeyboardStyle,
    create: bool,
    k: int,
)
    requires
        0 <= k < 10,
    ensures
        lookup(layout_graph(BaseKeys::Numeric, extra, text, style, create).nodes, digit_key(k).0)
            == Some(digit_key(k)),
        digit_key(k).1 == NO_CHAR,
        lookup(layout_graph(BaseKeys::Numeric, extra, text, style, create).nodes, NO_CHAR) is None,
{
    let nodes = layout_graph(BaseKeys::Numeric, extra, text, style, create).nodes;
    lemma_layout_starts_with_base(BaseKeys::Numeric, extra, text, style, create);
    lemma_digits_found(nodes, k);
    lemma_no_char_not_found(nodes);
}

/// No key is found for `NO_CHAR`, whatever the keys.
pub proof fn lemma_no_char_not_found(nodes: Seq<(char, char)>)
    ensures
        lookup(nodes, NO_CHAR) is None,
{
    crate::graph::lemma_first_answer_from(nodes, NO_CHAR, 0);
}

} // verus!
