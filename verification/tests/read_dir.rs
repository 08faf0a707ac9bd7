use jwalk_meta::index_path::IndexPath;
use jwalk_meta::read_dir::{order_read_dir_result, push_children, ReadDir};
use jwalk_meta::walk::{root_work_items, ROOT_WEIGHT};

fn sample() -> ReadDir<u32, &'static str, String> {
    ReadDir::new(
        7,
        vec![
            Ok(Some("a")),
            Ok(None),
            Err("denied".to_string()),
            Ok(Some("b")),
            Ok(Some("c")),
        ],
    )
}

#[test]
fn read_children_specs_in_entry_order() {
    let rd = sample();
    assert_eq!(rd.streamed_child_count, 0);
    assert_eq!(rd.read_dir_state, 7);
    assert_eq!(rd.read_children_specs(), vec!["a", "b", "c"]);
}

#[test]
fn weighted_children_are_numbered_without_gaps() {
    let rd = sample();
    let parent = IndexPath::new(vec![0, 4]);
    let specs = rd.weighted_children_specs(&parent, 100);
    let got: Vec<(&str, Vec<usize>, usize)> =
        specs.iter().map(|w| (w.value, w.index_path.to_vec(), w.weight)).collect();
    assert_eq!(
        got,
        vec![
            ("a", vec![0, 4, 0], 105),
            ("b", vec![0, 4, 1], 105),
            ("c", vec![0, 4, 2], 105),
        ]
    );
}

#[test]
fn weighted_children_skip_streamed_and_saturate() {
    let mut rd = sample();
    rd.streamed_child_count = 2;
    let specs = rd.weighted_children_specs(&IndexPath::new(vec![0]), usize::MAX - 1);
    assert_eq!(specs.len(), 1);
    assert_eq!(specs[0].value, "c");
    assert_eq!(specs[0].index_path.to_vec(), vec![0, 2]);
    assert_eq!(specs[0].weight, usize::MAX);
    rd.streamed_child_count = 9;
    assert!(rd.weighted_children_specs(&IndexPath::new(vec![0]), 1).is_empty());
}

#[test]
fn ordered_result_counts_children() {
    let path = IndexPath::new(vec![0, 1]);
    let (ordered, children) = order_read_dir_result::<u32, &str, String, String>(Ok(sample()), &path, 5);
    assert_eq!(ordered.child_count, 3);
    assert_eq!(ordered.index_path.to_vec(), vec![0, 1]);
    assert_eq!(children.map(|c| c.len()), Some(3));

    let mut streamed = sample();
    streamed.streamed_child_count = 4;
    let (ordered, children) = order_read_dir_result::<u32, &str, String, String>(Ok(streamed), &path, 5);
    assert_eq!(ordered.child_count, 4);
    assert!(children.is_none());

    let (ordered, children) =
        order_read_dir_result::<u32, &str, String, String>(Err("gone".to_string()), &path, 5);
    assert_eq!(ordered.child_count, 0);
    assert!(children.is_none());
    assert!(ordered.value.is_err());
}

#[test]
fn serial_stack_pops_children_in_order() {
    let mut stack = vec!["older"];
    push_children(&mut stack, &sample());
    assert_eq!(stack, vec!["older", "c", "b", "a"]);
    assert_eq!(stack.pop(), Some("a"));
}

#[test]
fn roots_start_at_path_zero_with_root_weight() {
    let roots = root_work_items(vec!["r1", "r2"]);
    assert_eq!(roots.len(), 2);
    assert_eq!(roots[0].value, "r1");
    assert_eq!(roots[1].value, "r2");
    for r in &roots {
        assert_eq!(r.index_path.to_vec(), vec![0]);
        assert_eq!(r.weight, usize::MAX >> 1);
        assert_eq!(r.weight, ROOT_WEIGHT);
    }
}

#[test]
fn scheduled_children_are_the_listed_specs_after_the_streamed_ones() {
    let mut rd = sample();
    rd.streamed_child_count = 1;
    let listed = rd.read_children_specs();
    let parent = IndexPath::new(vec![0]);
    let scheduled = rd.weighted_children_specs(&parent, 1);
    assert_eq!(scheduled.len(), listed.len() - 1);
    for (k, w) in scheduled.iter().enumerate() {
        assert_eq!(w.value, listed[1 + k]);
        assert_eq!(w.index_path.to_vec(), vec![0, 1 + k]);
    }
}
