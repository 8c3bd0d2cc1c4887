use dir2prompt::order::{bytes_le, sorted_order, str_le};

fn keys_of(items: &[&str]) -> Vec<String> {
    items.iter().map(|s| s.to_string()).collect()
}

fn arranged(items: &[&str]) -> Vec<String> {
    let keys = keys_of(items);
    sorted_order(&keys).into_iter().map(|k| keys[k].clone()).collect()
}

#[test]
fn bytes_compare_lexicographically() {
    assert!(bytes_le(b"", b""));
    assert!(bytes_le(b"", b"a"));
    assert!(!bytes_le(b"a", b""));
    assert!(bytes_le(b"abc", b"abc"));
    assert!(bytes_le(b"abc", b"abd"));
    assert!(!bytes_le(b"abd", b"abc"));
    assert!(bytes_le(b"ab", b"abc"));
    assert!(!bytes_le(b"abc", b"ab"));
    assert!(bytes_le(b"a\x7f", b"a\x80"));
    assert!(!bytes_le(b"b", b"az"));
}

#[test]
fn strings_compare_by_their_bytes() {
    assert!(str_le("B", "a"));
    assert!(!str_le("a", "B"));
    assert!(str_le("a-b", "a/b"));
    assert!(str_le("a", "a/b"));
    assert!(str_le("z", "\u{e9}"));
    assert!(!str_le("\u{e9}", "z"));
    assert!(str_le("\u{e9}", "\u{4e16}"));
    assert!(str_le("same", "same"));
}

#[test]
fn order_lists_positions_by_ascending_key() {
    let keys = keys_of(&["b", "a", "c"]);
    assert_eq!(sorted_order(&keys), vec![1, 0, 2]);
}

#[test]
fn order_of_nothing_and_of_one() {
    assert_eq!(sorted_order(&[]), Vec::<usize>::new());
    assert_eq!(sorted_order(&keys_of(&["only"])), vec![0]);
}

#[test]
fn order_keeps_every_position_of_equal_keys() {
    let mut order = sorted_order(&keys_of(&["x", "x", "a", "x"]));
    assert_eq!(order[0], 2);
    order.sort();
    assert_eq!(order, vec![0, 1, 2, 3]);
}

#[test]
fn paths_come_out_in_byte_order() {
    assert_eq!(
        arranged(&[
            "src/main.rs",
            "README.md",
            "src/lib.rs",
            "Cargo.toml",
            "src-old/a.rs",
            "src/bin/tool.rs",
            ".gitignore",
            "src",
            "docs/\u{e9}t\u{e9}.md",
            "docs/z.md",
        ]),
        keys_of(&[
            ".gitignore",
            "Cargo.toml",
            "README.md",
            "docs/z.md",
            "docs/\u{e9}t\u{e9}.md",
            "src",
            "src-old/a.rs",
            "src/bin/tool.rs",
            "src/lib.rs",
            "src/main.rs",
        ])
    );
}

#[test]
fn order_agrees_with_the_order_of_strings() {
    let mut keys = Vec::new();
    let mut state: u32 = 12345;
    for _ in 0..500 {
        let mut key = String::new();
        for _ in 0..(state % 7) {
            state = state.wrapping_mul(1_103_515_245).wrapping_add(12_345);
            key.push(char::from_u32(0x40 + (state >> 16) % 0x200).unwrap());
        }
        state = state.wrapping_mul(1_103_515_245).wrapping_add(12_345);
        keys.push(key);
    }
    let order = sorted_order(&keys);
    let got: Vec<String> = order.iter().map(|&k| keys[k].clone()).collect();
    let mut expected = keys.clone();
    expected.sort();
    assert_eq!(got, expected);
    let mut seen = order.clone();
    seen.sort();
    assert_eq!(seen, (0..keys.len()).collect::<Vec<usize>>());
}
