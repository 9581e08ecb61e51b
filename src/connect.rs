use vstd::prelude::*;

use crate::direction::{get_positions, positions_for, Edge, KeyboardStyle};
use crate::graph::{fits, lemma_link_wf, lemma_lookup, link, lookup, view_option, KeyGraph, KeySearch, Keyboard};
use crate::grid::{grid_rows, parse_grid, rows_view};
use crate::key::{Key, NO_CHAR};

verus! {

/// The key a grid cell holding `c` stands for: the first key that answers to
/// `c`; where none does, a key `c` without shifted form if `create` allows
/// it, else none. A void cell stands for no key.
pub open spec fn cell_key(nodes: Seq<(char, char)>, c: char, create: bool) -> Option<(char, char)> {
    if c == NO_CHAR {
        None
    } else {
        match lookup(nodes, c) {
            Some(k) => Some(k),
            None => if create {
                Some((c, NO_CHAR))
            } else {
                None
            },
        }
    }
}

/// The character at the position `e` from cell `(i, j)`, if the grid has a
/// cell there.
pub open spec fn neighbour_of(rows: Seq<Seq<char>>, i: int, j: int, e: Edge) -> Option<char> {
    let y = i + e.vertical.step();
    let x = j + e.horizontal.step();
    if 0 <= y < rows.len() && 0 <= x < rows[y].len() {
        Some(rows[y][x])
    } else {
        None
    }
}

/// The graph after the key `origin` of cell `(i, j)` is linked to the key
/// at position `e`, where there is one.
pub open spec fn link_towards(
    g: KeyGraph,
    rows: Seq<Seq<char>>,
    i: int,
    j: int,
    origin: (char, char),
    e: Edge,
    create: bool,
) -> KeyGraph {
    match neighbour_of(rows, i, j, e) {
        Some(c) => match cell_key(g.nodes, c, create) {
            Some(n) => link(g, origin, n, e),
            None => g,
        },
        None => g,
    }
}

/// The graph after `origin` is linked towards the positions of `table` from
/// the `t`-th on, in order.
pub open spec fn link_from(
    g: KeyGraph,
    rows: Seq<Seq<char>>,
    i: int,
    j: int,
    origin: (char, char),
    table: Seq<Edge>,
    create: bool,
    t: int,
) -> KeyGraph
    decreases table.len() - t,
{
    if 0 <= t < table.len() {
        link_from(
            link_towards(g, rows, i, j, origin, table[t], create),
            rows,
            i,
            j,
            origin,
            table,
            create,
            t + 1,
        )
    } else {
        g
    }
}

/// The graph after cell `(i, j)` is connected to its neighbours.
pub open spec fn connect_cell(
    g: KeyGraph,
    rows: Seq<Seq<char>>,
    i: int,
    j: int,
    table: Seq<Edge>,
    create: bool,
) -> KeyGraph {
    match cell_key(g.nodes, rows[i][j], create) {
        Some(origin) => link_from(g, rows, i, j, origin, table, create, 0),
        None => g,
    }
}

/// The graph after the cells of row `i` from column `j` on are connected,
/// left to right.
pub open spec fn connect_row_from(
    g: KeyGraph,
    rows: Seq<Seq<char>>,
    i: int,
    j: int,
    table: Seq<Edge>,
    create: bool,
) -> KeyGraph
    decreases rows[i].len() - j,
{
    if 0 <= i < rows.len() && 0 <= j < rows[i].len() {
        connect_row_from(connect_cell(g, rows, i, j, table, create), rows, i, j + 1, table, create)
    } else {
        g
    }
}

/// The graph after the rows from `i` on are connected, top to bottom.
pub open spec fn connect_rows_from(
    g: KeyGraph,
    rows: Seq<Seq<char>>,
    i: int,
    table: Seq<Edge>,
    create: bool,
) -> KeyGraph
    decreases rows.len() - i,
{
    if 0 <= i < rows.len() {
        connect_rows_from(connect_row_from(g, rows, i, 0, table, create), rows, i + 1, table, create)
    } else {
        g
    }
}

/// The graph after every cell of `rows` is connected to its neighbours.
pub open spec fn connect_grid(
    g: KeyGraph,
    rows: Seq<Seq<char>>,
    table: Seq<Edge>,
    create: bool,
) -> KeyGraph {
    connect_rows_from(g, rows, 0, table, create)
}

/// The key a cell holding `c` stands for in `graph`.
fn resolve_cell(graph: &Keyboard, c: char, create: bool) -> (r: Option<Key>)
    requires
        graph@.wf(),
    ensures
        view_option(r) == cell_key(graph@.nodes, c, create),
        r matches Some(k) ==> fits(graph@.nodes, k@),
{
    if c == NO_CHAR {
        return None;
    }
    let found = graph.find_key(c);
    proof {
        lemma_lookup(graph@.nodes, c);
    }
    match found {
        Some(k) => Some(k),
        None => {
            if create {
                Some(Key { value: c, shifted: NO_CHAR })
            } else {
                None
            }
        },
    }
}

/// Links `origin`, the key of cell `(i, j)`, to the key at each position of
/// `table` in turn.
fn link_cell(
    rows: &Vec<Vec<char>>,
    graph: &mut Keyboard,
    table: &Vec<Edge>,
    create: bool,
    i: usize,
    j: usize,
    origin: Key,
)
    requires
        old(graph)@.wf(),
        fits(old(graph)@.nodes, origin@),
    ensures
        final(graph)@.wf(),
        final(graph)@ == link_from(old(graph)@, rows_view(rows@), i as int, j as int, origin@, table@, create, 0),
{
    let ghost rv = rows_view(rows@);
    let ghost target = link_from(graph@, rv, i as int, j as int, origin@, table@, create, 0);
    let mut t: usize = 0;
    while t < table.len()
        invariant
            0 <= t <= table@.len(),
            rv == rows_view(rows@),
            graph@.wf(),
            fits(graph@.nodes, origin@),
            link_from(graph@, rv, i as int, j as int, origin@, table@, create, t as int) == target,
        decreases table.len() - t,
    {
        let e = table[t];
        let ghost g0 = graph@;
        let ghost e_int = neighbour_of(rv, i as int, j as int, e);
        assert(rv.len() == rows@.len());
        let nrows = rows.len();
        if let Some(y) = e.vertical.apply(i) {
            if y < nrows {
                let ncols = rows[y].len();
                assert(rv[y as int] == rows@[y as int]@);
                if let Some(x) = e.horizontal.apply(j) {
                    if x < ncols {
                        let c = rows[y][x];
                        assert(e_int == Some(c));
                        if let Some(n) = resolve_cell(graph, c, create) {
                            proof {
                                lemma_link_wf(graph@, origin@, n@, e);
                            }
                            graph.add_edge(origin, n, e);
                            assert(graph@ == link(g0, origin@, n@, e));
                        } else {
                            assert(cell_key(g0.nodes, c, create) is None);
                        }
                    } else {
                        assert(e_int is None);
                    }
                } else {
                    assert(e_int is None);
                }
            } else {
                assert(e_int is None);
            }
        } else {
            assert(e_int is None);
        }
        assert(graph@ == link_towards(g0, rv, i as int, j as int, origin@, e, create));
        t = t + 1;
    }
}

/// Given the text of a keyboard and a graph of its keys, connects each key
/// to its neighbours.
///
/// * keyboard - the layout: line breaks separate rows, spaces separate keys,
///     and `NO_CHAR` marks a void area that lines slanted rows up
/// * graph - the graph that receives the edges
/// * style - the arrangement of the keys
/// * add_missing_keys - whether a character that no key produces becomes a
///     key of its own or is skipped
pub fn connect_keyboard_nodes(
    keyboard: &str,
    graph: &mut Keyboard,
    style: KeyboardStyle,
    add_missing_keys: bool,
)
    requires
        old(graph)@.wf(),
    ensures
        final(graph)@.wf(),
        final(graph)@ == connect_grid(
            old(graph)@,
            grid_rows(keyboard@),
            positions_for(style),
            add_missing_keys,
        ),
{
    let table = get_positions(style);
    let rows = parse_grid(keyboard);
    let ghost rv = rows_view(rows@);
    let ghost target = connect_rows_from(graph@, rv, 0, table@, add_missing_keys);
    let mut i: usize = 0;
    while i < rows.len()
        invariant
            0 <= i <= rows@.len(),
            rv == rows_view(rows@),
            table@ == positions_for(style),
            graph@.wf(),
            connect_rows_from(graph@, rv, i as int, table@, add_missing_keys) == target,
        decreases rows.len() - i,
    {
        let ghost row_target = connect_row_from(graph@, rv, i as int, 0, table@, add_missing_keys);
        let mut j: usize = 0;
        while j < rows[i].len()
            invariant
                0 <= i < rows@.len(),
                0 <= j <= rows@[i as int]@.len(),
                rv == rows_view(rows@),
                rv[i as int] == rows@[i as int]@,
                graph@.wf(),
                connect_row_from(graph@, rv, i as int, j as int, table@, add_missing_keys)
                    == row_target,
            decreases rows[i as int]@.len() - j,
        {
            let c = rows[i][j];
            if let Some(origin) = resolve_cell(graph, c, add_missing_keys) {
                link_cell(&rows, graph, &table, add_missing_keys, i, j, origin);
            }
            j = j + 1;
        }
        i = i + 1;
    }
}

} // verus!
