use keygraph_rs::{
    add_alphabetics, add_unshifted_number_keys, generate_dvorak, generate_qwerty_uk,
    generate_qwerty_us, Key, KeySearch, Keyboard,
};

#[test]
fn test_alphabetics() {
    let alphabet = "abcdefghijklmnopqrstuvwxyz";
    assert_eq!(alphabet.chars().count(), 26);

    let mut result = Keyboard::new();
    add_alphabetics(&mut result);

    let uppercase = alphabet.to_uppercase();
    for (l, u) in alphabet.chars().zip(uppercase.chars()) {
        let test = Key { value: l, shifted: u };
        assert!(result.contains_node(test));
        assert!(result.find_key(l).is_some());
        assert!(result.find_key(u).is_some());
    }
}

#[test]
fn test_add_number_keys() {
    let numbers = "0123456789";
    assert_eq!(numbers.chars().count(), 10);

    let mut result = Keyboard::new();
    add_unshifted_number_keys(&mut result);
    for c in numbers.chars() {
        let test = Key { value: c, shifted: '\0' };
        assert!(result.contains_node(test));
        assert!(result.find_key(c).is_some());
    }
    assert!(result.find_key('\0').is_none());
}

#[test]
fn test_keyboard_contents() {
    let characters = "`~1!2\"34$5%^67&8*9(0)-_=+[{]};:'@#~,<.>/?\\|";
    let alphabet = "abcdefghijklmnopqrstuvqwxyz";

    let relevant_keyboards = vec![generate_qwerty_us(), generate_dvorak()];
    for keyboard in relevant_keyboards.iter() {
        for c in characters.chars() {
            let key = keyboard.find_key(c);
            assert!(key.is_some());
            let key = key.unwrap();
            assert!(key.value == c || key.shifted == c);
        }
        for c in alphabet.chars() {
            let key = keyboard.find_key(c);
            let made_key = Key { value: c, shifted: c.to_uppercase().nth(0).unwrap() };

            assert!(key.is_some());
            let key = key.unwrap();
            assert_eq!(key, made_key);
        }
    }
}

fn test_neighbours(expected: Vec<Key>, actual: Vec<Key>) {
    assert_eq!(expected.iter().count(), actual.iter().count());

    for n in actual.iter() {
        let others = expected.iter().filter(|x| **x != *n).count();
        assert_eq!(others, expected.iter().count() - 1);
    }
}

#[test]
fn test_qwerty_us() {
    let qwerty_us = generate_qwerty_us();
    // testing 'g'
    let reference_key = qwerty_us.find_key('g');
    assert!(reference_key.is_some());
    let reference_key = reference_key.unwrap();

    let expected = vec![
        qwerty_us.find_key('f').unwrap(),
        qwerty_us.find_key('h').unwrap(),
        qwerty_us.find_key('t').unwrap(),
        qwerty_us.find_key('y').unwrap(),
        qwerty_us.find_key('v').unwrap(),
        qwerty_us.find_key('b').unwrap(),
    ];
    let actual = qwerty_us.incoming_neighbors(reference_key);
    test_neighbours(expected, actual);

    // testing '`'
    let reference_key = qwerty_us.find_key('`');
    assert!(reference_key.is_some());
    let reference_key = reference_key.unwrap();

    let expected = vec![qwerty_us.find_key('1').unwrap()];
    let actual = qwerty_us.incoming_neighbors(reference_key);
    test_neighbours(expected, actual);

    // testing 'c'
    let reference_key = qwerty_us.find_key('c');
    assert!(reference_key.is_some());
    let reference_key = reference_key.unwrap();

    let expected = vec![
        qwerty_us.find_key('x').unwrap(),
        qwerty_us.find_key('v').unwrap(),
        qwerty_us.find_key('d').unwrap(),
        qwerty_us.find_key('f').unwrap(),
    ];
    let actual = qwerty_us.incoming_neighbors(reference_key);
    test_neighbours(expected, actual);
}

#[test]
fn test_qwerty_uk() {
    let qwerty_uk = generate_qwerty_uk();
    // testing 'g'
    let reference_key = qwerty_uk.find_key('g');
    assert!(reference_key.is_some());
    let reference_key = reference_key.unwrap();

    let expected = vec![
        qwerty_uk.find_key('f').unwrap(),
        qwerty_uk.find_key('h').unwrap(),
        qwerty_uk.find_key('t').unwrap(),
        qwerty_uk.find_key('y').unwrap(),
        qwerty_uk.find_key('v').unwrap(),
        qwerty_uk.find_key('b').unwrap(),
    ];
    let actual = qwerty_uk.incoming_neighbors(reference_key);
    test_neighbours(expected, actual);

    // testing '`'
    let reference_key = qwerty_uk.find_key('`');
    assert!(reference_key.is_some());
    let reference_key = reference_key.unwrap();

    let expected = vec![qwerty_uk.find_key('1').unwrap()];
    let actual = qwerty_uk.incoming_neighbors(reference_key);
    test_neighbours(expected, actual);

    // testing 'c'
    let reference_key = qwerty_uk.find_key('c');
    assert!(reference_key.is_some());
    let reference_key = reference_key.unwrap();

    let expected = vec![
        qwerty_uk.find_key('x').unwrap(),
        qwerty_uk.find_key('v').unwrap(),
        qwerty_uk.find_key('d').unwrap(),
        qwerty_uk.find_key('f').unwrap(),
    ];
    let actual = qwerty_uk.incoming_neighbors(reference_key);
    test_neighbours(expected, actual);

    // testing '6'
    let reference_key = qwerty_uk.find_key('6');
    assert!(reference_key.is_some());
    let reference_key = reference_key.unwrap();

    let expected = vec![
        qwerty_uk.find_key('%').unwrap(),
        qwerty_uk.find_key('&').unwrap(),
        qwerty_uk.find_key('t').unwrap(),
        qwerty_uk.find_key('y').unwrap(),
    ];
    let actual = qwerty_uk.incoming_neighbors(reference_key);
    test_neighbours(expected, actual);
}

#[test]
fn test_dvorak() {
    let dvorak = generate_dvorak();
    // testing 'y'
    let reference_key = dvorak.find_key('y');
    assert!(reference_key.is_some());
    let reference_key = reference_key.unwrap();

    let expected = vec![
        dvorak.find_key('p').unwrap(),
        dvorak.find_key('5').unwrap(),
        dvorak.find_key('6').unwrap(),
        dvorak.find_key('f').unwrap(),
        dvorak.find_key('i').unwrap(),
        dvorak.find_key('u').unwrap(),
    ];
    let actual = dvorak.incoming_neighbors(reference_key);
    test_neighbours(expected, actual);

    // testing '~'
    let reference_key = dvorak.find_key('~');
    assert!(reference_key.is_some());
    let reference_key = reference_key.unwrap();

    let expected = vec![dvorak.find_key('1').unwrap()];
    let actual = dvorak.incoming_neighbors(reference_key);
    test_neighbours(expected, actual);

    // testing 'z'
    let reference_key = generate_qwerty_us().find_key('z');
    assert!(reference_key.is_some());
    let reference_key = reference_key.unwrap();

    let expected = vec![
        dvorak.find_key('v').unwrap(),
        dvorak.find_key('s').unwrap(),
        dvorak.find_key('-').unwrap(),
    ];
    let actual = dvorak.incoming_neighbors(reference_key);
    test_neighbours(expected, actual);
}
