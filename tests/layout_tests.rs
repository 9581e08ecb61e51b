use keygraph_rs::{
    add_unshifted_number_keys, build_layout, connect_keyboard_nodes, generate_dvorak, generate_mac_numpad,
    generate_qwerty_uk, generate_qwerty_us, generate_standard_numpad, get_aligned_positions,
    get_positions, get_slanted_positions, keys_from_table, parse_grid, BaseKeys, Direction, Edge,
    Key, KeySearch, Keyboard, KeyboardStyle,
};

fn same_fields(a: &Key, b: &Key) -> bool {
    a.value == b.value && a.shifted == b.shifted
}

fn same_graph(a: &Keyboard, b: &Keyboard) -> bool {
    let na = a.nodes();
    let nb = b.nodes();
    if na.len() != nb.len() || a.edge_count() != b.edge_count() {
        return false;
    }
    for (x, y) in na.iter().zip(nb.iter()) {
        if !same_fields(x, y) {
            return false;
        }
    }
    for x in na.iter() {
        for y in na.iter() {
            if a.edge_weight(*x, *y) != b.edge_weight(*x, *y) {
                return false;
            }
        }
    }
    true
}

fn incoming_values(k: &Keyboard, c: char) -> Vec<char> {
    let key = k.find_key(c).unwrap();
    let mut v: Vec<char> = k.incoming_neighbors(key).iter().map(|n| n.value).collect();
    v.sort();
    v
}

fn sorted(s: &str) -> Vec<char> {
    let mut v: Vec<char> = s.chars().collect();
    v.sort();
    v
}

#[test]
fn letters_find_their_key_in_both_cases() {
    for layout in [generate_qwerty_us(), generate_qwerty_uk(), generate_dvorak()].iter() {
        for (l, u) in "abcdefghijklmnopqrstuvwxyz".chars().zip("ABCDEFGHIJKLMNOPQRSTUVWXYZ".chars()) {
            let lower = layout.find_key(l).unwrap();
            let upper = layout.find_key(u).unwrap();
            assert_eq!((lower.value, lower.shifted), (l, u));
            assert_eq!((upper.value, upper.shifted), (l, u));
        }
    }
}

#[test]
fn numpad_digits_have_no_shifted_form() {
    for layout in [generate_standard_numpad(), generate_mac_numpad()].iter() {
        for d in "0123456789".chars() {
            let k = layout.find_key(d).unwrap();
            assert_eq!(k.value, d);
            assert_eq!(k.shifted, '\0');
        }
        assert!(layout.find_key('\0').is_none());
    }
}

#[test]
fn us_g_has_six_incoming_neighbours() {
    assert_eq!(incoming_values(&generate_qwerty_us(), 'g'), sorted("fhtyvb"));
}

#[test]
fn us_backtick_has_only_one_as_neighbour() {
    assert_eq!(incoming_values(&generate_qwerty_us(), '`'), vec!['1']);
}

#[test]
fn uk_six_neighbours_are_five_seven_t_y() {
    assert_eq!(incoming_values(&generate_qwerty_uk(), '6'), sorted("57ty"));
    let uk = generate_qwerty_uk();
    assert_eq!(uk.find_key('%').unwrap().value, '5');
    assert_eq!(uk.find_key('&').unwrap().value, '7');
}

#[test]
fn us_and_dvorak_graphs_differ() {
    let us = generate_qwerty_us();
    let dvorak = generate_dvorak();
    assert!(!same_graph(&us, &dvorak));
    assert_ne!(incoming_values(&us, 'q'), incoming_values(&dvorak, 'q'));
    // building one layout leaves another untouched
    let again = generate_qwerty_us();
    assert!(same_graph(&us, &again));
}

#[test]
fn repeated_generation_gives_equal_graphs() {
    assert!(same_graph(&generate_qwerty_us(), &generate_qwerty_us()));
    assert!(same_graph(&generate_qwerty_uk(), &generate_qwerty_uk()));
    assert!(same_graph(&generate_dvorak(), &generate_dvorak()));
    assert!(same_graph(&generate_standard_numpad(), &generate_standard_numpad()));
    assert!(same_graph(&generate_mac_numpad(), &generate_mac_numpad()));
}

#[test]
fn position_tables() {
    let s = get_slanted_positions();
    assert_eq!(s.len(), 6);
    assert_eq!(s[0], Edge { horizontal: Direction::Previous, vertical: Direction::Same });
    assert_eq!(s[2], Edge { horizontal: Direction::Next, vertical: Direction::Previous });
    assert_eq!(s[5], Edge { horizontal: Direction::Previous, vertical: Direction::Next });
    let a = get_aligned_positions();
    assert_eq!(a.len(), 8);
    assert_eq!(a[1], Edge { horizontal: Direction::Previous, vertical: Direction::Previous });
    assert_eq!(a[5], Edge { horizontal: Direction::Next, vertical: Direction::Next });
    for e in a.iter() {
        assert!(!(e.horizontal == Direction::Same && e.vertical == Direction::Same));
    }
    assert_eq!(get_positions(KeyboardStyle::Slanted), s);
    assert_eq!(get_positions(KeyboardStyle::Aligned), a);
}

#[test]
fn grid_parsing() {
    assert!(parse_grid("").is_empty());
    assert_eq!(parse_grid("a b\n\0 c"), vec![vec!['a', 'b'], vec!['\0', 'c']]);
    assert_eq!(parse_grid("a b\n"), vec![vec!['a', 'b']]);
    assert_eq!(parse_grid("a\n\nb"), vec![vec!['a'], vec![], vec!['b']]);
    assert_eq!(parse_grid("x y\r\nz"), vec![vec!['x', 'y'], vec!['z']]);
}

#[test]
fn shift_table_keys() {
    let keys = keys_from_table("1!2@3");
    assert_eq!(keys.len(), 2);
    assert_eq!((keys[0].value, keys[0].shifted), ('1', '!'));
    assert_eq!((keys[1].value, keys[1].shifted), ('2', '@'));
    assert!(keys_from_table("").is_empty());
}

#[test]
fn edges_carry_relative_positions() {
    let us = generate_qwerty_us();
    let g = us.find_key('g').unwrap();
    let h = us.find_key('h').unwrap();
    let t = us.find_key('t').unwrap();
    assert_eq!(
        us.edge_weight(g, h),
        Some(Edge { horizontal: Direction::Next, vertical: Direction::Same })
    );
    assert_eq!(
        us.edge_weight(h, g),
        Some(Edge { horizontal: Direction::Previous, vertical: Direction::Same })
    );
    assert_eq!(
        us.edge_weight(g, t),
        Some(Edge { horizontal: Direction::Same, vertical: Direction::Previous })
    );
    let a = us.find_key('a').unwrap();
    assert_eq!(us.edge_weight(g, a), None);
    let mut out: Vec<char> = us.outgoing_neighbors(g).iter().map(|n| n.value).collect();
    out.sort();
    assert_eq!(out, sorted("fhtyvb"));
}

#[test]
fn numpad_symbols_become_keys() {
    let pad = generate_standard_numpad();
    let plus = pad.find_key('+').unwrap();
    assert_eq!((plus.value, plus.shifted), ('+', '\0'));
    assert_eq!(incoming_values(&pad, '+'), sorted("*-96"));
    assert_eq!(incoming_values(&pad, '7'), sorted("/845"));
    // void cells never become keys
    assert_eq!(pad.nodes().iter().filter(|k| k.value == '\0').count(), 0);
    // 10 digits then / * - + .
    assert_eq!(pad.nodes().len(), 15);
    let mac = generate_mac_numpad();
    assert_eq!(mac.nodes().len(), 16);
    assert_eq!(incoming_values(&mac, '='), sorted("/789"));
}

#[test]
fn skipped_characters_without_keys() {
    let mut k = Keyboard::new();
    k.add_key(Key { value: 'a', shifted: 'A' });
    k.add_key(Key { value: 'b', shifted: 'B' });
    connect_keyboard_nodes("a ? b", &mut k, KeyboardStyle::Aligned, false);
    assert_eq!(k.nodes().len(), 2);
    assert_eq!(k.edge_count(), 0);
    connect_keyboard_nodes("a b", &mut k, KeyboardStyle::Aligned, false);
    assert_eq!(k.edge_count(), 2);
}

#[test]
fn created_characters_with_missing_keys() {
    let mut k = Keyboard::new();
    connect_keyboard_nodes("a ?", &mut k, KeyboardStyle::Slanted, true);
    assert_eq!(k.nodes().len(), 2);
    assert!(k.contains_node(Key { value: '?', shifted: '\0' }));
    assert_eq!(k.edge_count(), 2);
}

#[test]
fn seeding_a_key_twice_adds_it_once() {
    let mut k = Keyboard::new();
    k.add_key(Key { value: '5', shifted: '%' });
    k.add_key(Key { value: '5', shifted: '%' });
    k.add_key(Key { value: '5', shifted: '\0' });
    assert_eq!(k.nodes().len(), 1);
    k.add_key(Key { value: '5', shifted: '&' });
    assert_eq!(k.nodes().len(), 2);
}

#[test]
fn build_layout_from_parts() {
    let k = build_layout(
        BaseKeys::Numeric,
        vec![Key { value: '+', shifted: '=' }],
        "1 2\n+ 3",
        KeyboardStyle::Aligned,
        false,
    );
    assert_eq!(k.nodes().len(), 11);
    assert_eq!(incoming_values(&k, '='), sorted("123"));
    assert_eq!(k.edge_count(), 12);
}

#[test]
fn lookup_misses() {
    let us = generate_qwerty_us();
    assert!(us.find_key('é').is_none());
    assert!(us.find_key('\0').is_none());
    assert!(Keyboard::new().find_key('a').is_none());
}

#[test]
fn empty_grid_adds_no_edges() {
    let mut k = Keyboard::new();
    add_unshifted_number_keys(&mut k);
    connect_keyboard_nodes("", &mut k, KeyboardStyle::Slanted, true);
    assert_eq!(k.edge_count(), 0);
    assert_eq!(k.nodes().len(), 10);
}
