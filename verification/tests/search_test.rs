use ted::buffer::{Buffer, Location};
use ted::search::{nth_match, reverse_matches, rotate_matches, Search};
use ted::Error;

fn search(patt: &str) -> Search {
    match Search::try_from(patt) {
        Ok(search) => search,
        Err(err) => panic!("unexpected {:?}", err),
    }
}

#[test]
fn test_forward_search_starts_ahead_and_wraps() {
    let s = search("foo");
    assert_eq!(s.find_fwd("foo bar foo", 4), vec![(8, 11), (0, 3)]);
    assert_eq!(s.find_fwd("foo bar foo", 8), vec![(0, 3), (8, 11)]);
    assert_eq!(s.find_fwd("foo bar foo", 0), vec![(8, 11), (0, 3)]);
    assert_eq!(s.find_fwd("foo bar foo", 7), vec![(8, 11), (0, 3)]);
    assert_eq!(s.find_fwd("foo bar foo", 100), vec![(0, 3), (8, 11)]);
    assert_eq!(s.find_fwd("bar", 1), vec![]);
}

#[test]
fn test_backward_search_is_the_forward_search_reversed() {
    let s = search("foo");
    assert_eq!(s.find_rev("foo bar foo", 4), vec![(0, 3), (8, 11)]);
    assert_eq!(s.find_rev("foo bar foo", 8), vec![(8, 11), (0, 3)]);
    assert_eq!(s.find_rev("bar", 1), vec![]);
}

#[test]
fn test_matches_are_byte_offsets() {
    let s = search("\u{e4}+");
    assert_eq!(s.find_fwd("a\u{e4}\u{e4} \u{e4}", 0), vec![(1, 5), (6, 8)]);
    let s = search("[0-9]+");
    assert_eq!(s.find_fwd("a1 b22 c333", 3), vec![(4, 6), (8, 11), (1, 2)]);
}

#[test]
fn test_bad_patterns() {
    for patt in vec!["(", "[a", "a{2", "\\", "*a"] {
        match Search::try_from(patt) {
            Err(Error::BadPattern(_)) => (),
            Err(err) => panic!("unexpected {:?}", err),
            Ok(_) => panic!("pattern {:?} compiles", patt),
        }
    }
}

#[test]
fn test_find_nearest() {
    let rs = vec![(0, 3), (8, 11), (16, 19), (24, 27), (30, 31)];
    assert_eq!(Search::find(0, &vec![]), None);
    assert_eq!(Search::find(0, &rs), Some(1));
    assert_eq!(Search::find(7, &rs), Some(1));
    assert_eq!(Search::find(8, &rs), Some(2));
    assert_eq!(Search::find(20, &rs), Some(3));
    assert_eq!(Search::find(29, &rs), Some(4));
    assert_eq!(Search::find(30, &rs), Some(0));
    assert_eq!(Search::find(usize::MAX, &rs), Some(0));
    assert_eq!(Search::find(5, &vec![(7, 9)]), Some(0));
    assert_eq!(Search::find(9, &vec![(7, 9)]), Some(0));
    for n in 0..12_usize {
        let rs: Vec<(usize, usize)> = (0..n).map(|i| (3 * i + 1, 3 * i + 2)).collect();
        for off in 0..40 {
            let first = rs.iter().position(|(s, _)| *s > off);
            let expect = if n == 0 { None } else { Some(first.unwrap_or(0)) };
            assert_eq!(Search::find(off, &rs), expect);
        }
    }
}

#[test]
fn test_rotate_and_reverse() {
    let rs = vec![(0, 3), (8, 11), (16, 19)];
    assert_eq!(rotate_matches(&rs, 9), vec![(16, 19), (0, 3), (8, 11)]);
    assert_eq!(rotate_matches(&rs, 16), vec![(0, 3), (8, 11), (16, 19)]);
    assert_eq!(rotate_matches(&vec![], 16), vec![]);
    assert_eq!(reverse_matches(&rs), vec![(16, 19), (8, 11), (0, 3)]);
    assert_eq!(reverse_matches(&vec![]), vec![]);
}

#[test]
fn test_nth_match() {
    let mut buf = Buffer::from_text("a\u{e4}b\u{e4}c", Location::default(), 1);
    buf.set_cursor(2);
    let order = vec![(4, 6), (1, 3)];
    assert_eq!(nth_match(&buf, &order, 1), 3);
    assert_eq!(nth_match(&buf, &order, 0), 3);
    assert_eq!(nth_match(&buf, &order, 2), 1);
    assert_eq!(nth_match(&buf, &order, 3), 2);
    assert_eq!(nth_match(&buf, &vec![], 1), 2);
    assert_eq!(nth_match(&buf, &vec![(5, 6), (100, 101)], 1), 3);
    assert_eq!(nth_match(&buf, &vec![(5, 6), (100, 101)], 2), 5);
}
