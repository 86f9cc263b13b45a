use package_list::order::stable_order;

fn keys(names: &[&str]) -> Vec<String> {
    names.iter().map(|n| n.to_string()).collect()
}

#[test]
fn stable_order_of_nothing_is_empty() {
    assert_eq!(stable_order(&keys(&[])), Vec::<usize>::new());
}

#[test]
fn stable_order_of_one_key() {
    assert_eq!(stable_order(&keys(&["only"])), vec![0]);
}

#[test]
fn stable_order_sorts_ascending() {
    assert_eq!(stable_order(&keys(&["pear", "apple", "fig"])), vec![1, 2, 0]);
}

#[test]
fn stable_order_leaves_sorted_keys_in_place() {
    assert_eq!(stable_order(&keys(&["a", "b", "c", "d"])), vec![0, 1, 2, 3]);
}

#[test]
fn stable_order_reverses_descending_keys() {
    assert_eq!(stable_order(&keys(&["d", "c", "b", "a"])), vec![3, 2, 1, 0]);
}

#[test]
fn stable_order_keeps_equal_keys_in_input_order() {
    assert_eq!(stable_order(&keys(&["b", "a", "b", "a", "b"])), vec![1, 3, 0, 2, 4]);
}

#[test]
fn stable_order_puts_upper_case_before_lower_case() {
    assert_eq!(stable_order(&keys(&["a", "B", "A", "b"])), vec![2, 1, 0, 3]);
}

#[test]
fn stable_order_puts_a_prefix_before_the_longer_key() {
    assert_eq!(stable_order(&keys(&["com.app.x", "com.app", "com"])), vec![2, 1, 0]);
}

#[test]
fn stable_order_puts_the_empty_key_first() {
    assert_eq!(stable_order(&keys(&["z", "", "a"])), vec![1, 2, 0]);
}

#[test]
fn stable_order_goes_by_code_point_beyond_ascii() {
    assert_eq!(stable_order(&keys(&["é", "z", "e", "€"])), vec![2, 1, 0, 3]);
}

#[test]
fn stable_order_is_a_permutation() {
    let input = keys(&["m", "c", "x", "c", "a", "m", "b"]);
    let mut order = stable_order(&input);
    for w in order.windows(2) {
        assert!(input[w[0]] <= input[w[1]]);
        if input[w[0]] == input[w[1]] {
            assert!(w[0] < w[1]);
        }
    }
    order.sort();
    assert_eq!(order, vec![0, 1, 2, 3, 4, 5, 6]);
}
