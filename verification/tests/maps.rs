use compute_worker::order::{rank_bytes, rank_text, Rank};
use compute_worker::sorted_map::SortedMap;

#[test]
fn texts_stand_in_scalar_order() {
    assert_eq!(rank_text("", ""), Rank::Same);
    assert_eq!(rank_text("", "a"), Rank::Before);
    assert_eq!(rank_text("b", "a"), Rank::After);
    assert_eq!(rank_text("abc", "abd"), Rank::Before);
    assert_eq!(rank_text("abc", "ab"), Rank::After);
    assert_eq!(rank_text("Z", "a"), Rank::Before);
    assert_eq!(rank_text("\u{ffff}", "\u{10000}"), Rank::Before);
    assert_eq!(rank_bytes(&[1, 2], &[1, 2]), Rank::Same);
    assert_eq!(rank_bytes(&[1, 2], &[1, 2, 0]), Rank::Before);
    assert_eq!(rank_bytes(&[2], &[1, 255]), Rank::After);
}

#[test]
fn entries_are_in_key_order() {
    let mut map: SortedMap<String, u64> = SortedMap::new();
    for (key, value) in [("m", 1), ("a", 2), ("z", 3), ("m", 4), ("b", 5)] {
        map.insert(key.to_owned(), value);
    }
    assert_eq!(map.len(), 4);
    let mut entries = Vec::new();
    for i in 0..map.len() {
        entries.push((map.key_at(i).as_str(), *map.value_at(i)));
    }
    assert_eq!(entries, [("a", 2), ("b", 5), ("m", 4), ("z", 3)]);
    assert_eq!(map.get(&"m".to_owned()), Some(&4));
    assert_eq!(map.get(&"n".to_owned()), None);
}

#[test]
fn the_order_of_insertion_does_not_show() {
    let keys = ["k", "q", "c", "x", "a", "t", "e"];
    let mut forth: SortedMap<String, u64> = SortedMap::new();
    let mut back: SortedMap<String, u64> = SortedMap::new();
    for (i, key) in keys.iter().enumerate() {
        forth.insert((*key).to_owned(), i as u64);
    }
    for (i, key) in keys.iter().enumerate().rev() {
        back.insert((*key).to_owned(), i as u64);
    }
    assert_eq!(forth.len(), back.len());
    for i in 0..forth.len() {
        assert_eq!(forth.key_at(i), back.key_at(i));
        assert_eq!(forth.value_at(i), back.value_at(i));
    }
}
