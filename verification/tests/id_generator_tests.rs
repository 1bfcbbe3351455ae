use fibridge_proxy::id_generator::{
    create_generator, short_id_from, Generator, IdGenerator, ShortIdGenerator, UuidGenerator,
};

const ALPHABET: &str = "0123456789abcdefghijkmnpqrstuvwxyz";

fn assert_short_id(id: &str) {
    let chars: Vec<char> = id.chars().collect();
    assert_eq!(chars.len(), 9, "{}", id);
    for (i, c) in chars.iter().enumerate() {
        if i == 4 {
            assert_eq!(*c, '-', "{}", id);
        } else {
            assert!(ALPHABET.contains(*c), "{}", id);
        }
    }
}

fn assert_uuid(id: &str) {
    let chars: Vec<char> = id.chars().collect();
    assert_eq!(chars.len(), 36, "{}", id);
    for (i, c) in chars.iter().enumerate() {
        if i == 8 || i == 13 || i == 18 || i == 23 {
            assert_eq!(*c, '-', "{}", id);
        } else {
            assert!(c.is_ascii_digit() || ('a'..='f').contains(c), "{}", id);
        }
    }
    assert_eq!(chars[14], '4', "{}", id);
    assert!("89ab".contains(chars[19]), "{}", id);
}

#[test]
fn short_ids_have_two_groups_of_four() {
    let generator = ShortIdGenerator::new();
    for _ in 0..200 {
        assert_short_id(&generator.gen());
    }
}

#[test]
fn short_ids_never_hold_l_or_o() {
    let generator = ShortIdGenerator::new();
    for _ in 0..500 {
        let id = generator.gen();
        assert!(!id.contains('l') && !id.contains('o'), "{}", id);
    }
}

#[test]
fn short_ids_differ() {
    let generator = ShortIdGenerator::new();
    let first = generator.gen();
    let mut differs = false;
    for _ in 0..50 {
        if generator.gen() != first {
            differs = true;
        }
    }
    assert!(differs);
}

#[test]
fn uuids_are_hyphenated_version_four() {
    let generator = UuidGenerator::new();
    for _ in 0..200 {
        assert_uuid(&generator.gen());
    }
}

#[test]
fn uuids_differ() {
    let generator = UuidGenerator::new();
    assert_ne!(generator.gen(), generator.gen());
}

#[test]
fn create_generator_picks_uuid_by_name() {
    let generator = create_generator("uuid");
    assert!(matches!(generator, Generator::Uuid(_)));
    assert_uuid(&generator.gen());
}

#[test]
fn create_generator_falls_back_to_short_codes() {
    for name in ["short-code", "", "UUID", "uuid ", "anything"] {
        let generator = create_generator(name);
        assert!(matches!(generator, Generator::ShortCode(_)), "{}", name);
        assert_short_id(&generator.gen());
    }
}

#[test]
fn generators_can_be_boxed_and_shared() {
    let boxed: Box<dyn IdGenerator> = Box::new(create_generator("short-code"));
    let shared = std::sync::Arc::new(boxed);
    assert_short_id(&shared.gen());
}

#[test]
fn short_id_from_writes_the_characters_at_the_given_places() {
    assert_eq!(short_id_from(&[0, 0, 0, 0, 0, 0, 0, 0]), "0000-0000");
    assert_eq!(short_id_from(&[0, 1, 2, 3, 4, 5, 6, 7]), "0123-4567");
    assert_eq!(short_id_from(&[10, 11, 20, 21, 22, 23, 33, 9]), "abkm-npz9");
    assert_eq!(short_id_from(&[33, 32, 31, 30, 29, 28, 27, 26]), "zyxw-vuts");
}

#[test]
fn short_id_from_covers_the_whole_alphabet() {
    for (place, c) in ALPHABET.chars().enumerate() {
        let mut places = [0usize; 8];
        for at in 0..8 {
            places[at] = place;
            let id: Vec<char> = short_id_from(&places).chars().collect();
            let position = if at < 4 { at } else { at + 1 };
            assert_eq!(id[position], c);
            places[at] = 0;
        }
    }
}

#[test]
fn the_alphabet_has_thirty_four_characters() {
    assert_eq!(ALPHABET.chars().count(), 34);
}
