use renderide::ordering::{
    count_key_runs, keys_equal, lex_less, reversed, stable_sort_by_key, strip_keys,
};

#[test]
fn lexicographic_order() {
    assert!(lex_less(&vec![1, 2], &vec![1, 3]));
    assert!(lex_less(&vec![1], &vec![1, 0]));
    assert!(!lex_less(&vec![1, 0], &vec![1]));
    assert!(!lex_less(&vec![2], &vec![2]));
    assert!(lex_less(&vec![], &vec![-5]));
    assert!(keys_equal(&vec![4, 5], &vec![4, 5]));
    assert!(!keys_equal(&vec![4, 5], &vec![4]));
}

#[test]
fn stable_sort_keeps_equal_keys_in_input_order() {
    let input = vec![
        (vec![2], 'a'),
        (vec![1], 'b'),
        (vec![2], 'c'),
        (vec![0, 9], 'd'),
        (vec![1], 'e'),
    ];
    let sorted = stable_sort_by_key(input);
    assert_eq!(count_key_runs(&sorted), 3);
    let values = strip_keys(sorted);
    assert_eq!(values, vec!['d', 'b', 'e', 'a', 'c']);
}

#[test]
fn stable_sort_of_a_longer_run_merges_stably() {
    let keys: Vec<i128> = vec![5, 3, 5, 1, 3, 3, 0, 5, 1, 2, 0];
    let input: Vec<(Vec<i128>, usize)> =
        keys.iter().enumerate().map(|(i, k)| (vec![*k], i)).collect();
    let out = stable_sort_by_key(input);
    let order: Vec<usize> = out.iter().map(|(_, i)| *i).collect();
    assert_eq!(order, vec![6, 10, 3, 8, 9, 1, 4, 5, 0, 2, 7]);
    assert_eq!(count_key_runs(&out), 5);
}

#[test]
fn reversed_moves_elements_back_to_front() {
    assert_eq!(reversed(vec!['a', 'b', 'c']), vec!['c', 'b', 'a']);
    assert_eq!(reversed(Vec::<u8>::new()), Vec::<u8>::new());
}
