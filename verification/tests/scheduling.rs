use jwalk_meta::index_path::IndexPath;
use jwalk_meta::ordered::Ordered;
use jwalk_meta::ordered_matcher::OrderedMatcher;
use jwalk_meta::priority_buffer::PriorityBuffer;
use jwalk_meta::weighted::Weighted;
use std::cmp::Ordering;

fn path(v: &[usize]) -> IndexPath {
    IndexPath::new(v.to_vec())
}

#[test]
fn index_path_push_pop_and_increment() {
    let mut p = path(&[0]);
    assert!(!p.is_empty());
    p.push(3);
    assert_eq!(p.to_vec(), vec![0, 3]);
    p.increment_last();
    assert_eq!(p.to_vec(), vec![0, 4]);
    assert_eq!(p.pop(), Some(4));
    assert_eq!(p.pop(), Some(0));
    assert_eq!(p.pop(), None);
    assert!(p.is_empty());
    assert_eq!(p.len(), 0);
}

#[test]
fn index_path_adding_leaves_the_path_unchanged() {
    let p = path(&[0, 1]);
    let q = p.adding(7);
    assert_eq!(p.to_vec(), vec![0, 1]);
    assert_eq!(q.to_vec(), vec![0, 1, 7]);
    let deep = path(&[1, 2, 3, 4, 5, 6, 7, 8, 9, 10]);
    assert_eq!(deep.adding(11).len(), 11);
}

#[test]
fn index_path_orders_in_reverse_lexicographic_order() {
    // The path that comes first in depth-first preorder compares greater.
    assert_eq!(path(&[0]).cmp(&path(&[0, 0])), Ordering::Greater);
    assert_eq!(path(&[0, 1]).cmp(&path(&[0, 2])), Ordering::Greater);
    assert_eq!(path(&[0, 2]).cmp(&path(&[0, 1, 5])), Ordering::Less);
    assert_eq!(path(&[0, 2]).cmp(&path(&[0, 2])), Ordering::Equal);
    assert_eq!(path(&[1]).partial_cmp(&path(&[0, 9])), Some(Ordering::Less));
    assert!(path(&[4, 2]).eq(&path(&[4, 2])));
    assert!(!path(&[4, 2]).eq(&path(&[4])));
    assert_eq!(path(&[3]).clone().to_vec(), vec![3]);
}

#[test]
fn weighted_heavier_first_then_preorder() {
    let a = Weighted::new("a", path(&[0, 5]), 10);
    let b = Weighted::new("b", path(&[0, 1]), 3);
    let c = Weighted::new("c", path(&[0, 2]), 10);
    assert_eq!(a.cmp(&b), Ordering::Greater);
    assert_eq!(a.cmp(&c), Ordering::Less);
    assert_eq!(c.partial_cmp(&a), Some(Ordering::Greater));
    assert!(a.eq(&Weighted::new("z", path(&[0, 5]), 10)));

    let mut buf = PriorityBuffer::new();
    buf.push(a);
    buf.push(b);
    buf.push(c);
    assert_eq!(buf.len(), 3);
    assert_eq!(buf.peek().map(|w| w.value), Some("c"));
    assert_eq!(buf.pop().map(|w| w.value), Some("c"));
    assert_eq!(buf.pop().map(|w| w.value), Some("a"));
    assert_eq!(buf.pop().map(|w| w.value), Some("b"));
    assert!(buf.pop().is_none());
    assert!(buf.is_empty());
}

#[test]
fn ordered_buffer_releases_preorder() {
    let mut buf = PriorityBuffer::with_capacity(4);
    for p in [vec![0, 1], vec![0], vec![0, 0, 3], vec![0, 0]] {
        buf.push(Ordered::new((), IndexPath::new(p), 0));
    }
    let mut out = Vec::new();
    while let Some(o) = buf.pop() {
        out.push(o.index_path.to_vec());
    }
    assert_eq!(out, vec![vec![0], vec![0, 0], vec![0, 0, 3], vec![0, 1]]);
}

#[test]
fn matcher_follows_depth_first_preorder() {
    // Root with children [a (2 children: a0, a1), b (leaf)].
    let tree: Vec<(Vec<usize>, usize)> = vec![
        (vec![0], 2),
        (vec![0, 0], 2),
        (vec![0, 0, 0], 0),
        (vec![0, 0, 1], 0),
        (vec![0, 1], 0),
    ];
    let mut m = OrderedMatcher::default();
    for (p, children) in tree {
        assert_eq!(m.looking_for().to_vec(), p);
        assert!(!m.is_none());
        m.advance_past(&Ordered::new((), IndexPath::new(p), children));
    }
    assert!(m.is_none());
    assert_eq!(m.depth(), 0);
}

#[test]
fn matcher_decrement_saturates() {
    let mut m = OrderedMatcher::new();
    m.decrement_remaining_children();
    m.decrement_remaining_children();
    assert_eq!(m.looking_for().to_vec(), vec![0]);
}
