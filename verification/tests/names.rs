use pkgsync::names::{
    cleanup_package_list, cleanup_reporting_duplicates, clone_names, compare_bytes, compare_lists_in_both,
    compare_lists_only_in_first, compare_names, find_name, PackageSet, Rank,
};

fn list(names: &[&str]) -> Vec<String> {
    names.iter().map(|n| n.to_string()).collect()
}

#[test]
fn bytes_compare_lexicographically() {
    assert_eq!(compare_bytes(b"abc", b"abd"), Rank::Before);
    assert_eq!(compare_bytes(b"abd", b"abc"), Rank::After);
    assert_eq!(compare_bytes(b"abc", b"abc"), Rank::Same);
    assert_eq!(compare_bytes(b"ab", b"abc"), Rank::Before);
    assert_eq!(compare_bytes(b"abc", b"ab"), Rank::After);
    assert_eq!(compare_bytes(b"", b""), Rank::Same);
    assert_eq!(compare_bytes(b"", b"a"), Rank::Before);
    assert_eq!(compare_bytes(&[0xff], &[0x01, 0x02]), Rank::After);
}

#[test]
fn names_compare_as_str_does() {
    let names = ["", "a", "A", "Z", "ab", "b", "vim", "vim-runtime", "é", "z", "日本", "a\u{10000}"];
    for a in names {
        for b in names {
            let expected = if a < b {
                Rank::Before
            } else if a == b {
                Rank::Same
            } else {
                Rank::After
            };
            assert_eq!(compare_names(a, b), expected);
        }
    }
}

#[test]
fn names_are_case_sensitive() {
    assert_eq!(compare_names("Vim", "vim"), Rank::Before);
    assert_ne!(compare_names("vim", "Vim"), Rank::Same);
}

#[test]
fn find_name_finds_what_is_there() {
    let l = list(&["a", "c", "e", "g"]);
    assert_eq!(find_name(&l, "a"), Ok(0));
    assert_eq!(find_name(&l, "c"), Ok(1));
    assert_eq!(find_name(&l, "e"), Ok(2));
    assert_eq!(find_name(&l, "g"), Ok(3));
}

#[test]
fn find_name_gives_the_place_of_what_is_missing() {
    let l = list(&["a", "c", "e", "g"]);
    assert_eq!(find_name(&l, ""), Err(0));
    assert_eq!(find_name(&l, "b"), Err(1));
    assert_eq!(find_name(&l, "d"), Err(2));
    assert_eq!(find_name(&l, "f"), Err(3));
    assert_eq!(find_name(&l, "h"), Err(4));
    assert_eq!(find_name(&[], "a"), Err(0));
}

#[test]
fn cleanup_sorts_and_removes_duplicates() {
    let mut l = list(&["vim", "bash", "zsh", "bash", "awk", "vim", "vim"]);
    cleanup_package_list(&mut l);
    assert_eq!(l, list(&["awk", "bash", "vim", "zsh"]));
}

#[test]
fn cleanup_of_the_empty_list_is_empty() {
    let mut l: Vec<String> = Vec::new();
    cleanup_package_list(&mut l);
    assert!(l.is_empty());
}

#[test]
fn cleanup_does_not_depend_on_the_order() {
    let mut a = list(&["c", "a", "b", "a"]);
    let mut b = list(&["b", "c", "c", "a"]);
    let mut c = list(&["a", "b", "c"]);
    cleanup_package_list(&mut a);
    cleanup_package_list(&mut b);
    cleanup_package_list(&mut c);
    assert_eq!(a, b);
    assert_eq!(b, c);
}

#[test]
fn cleanup_agrees_with_sort_and_dedup() {
    let mut l = list(&["é", "z", "a", "Z", "日本", "ab", "a", "", "z"]);
    let mut expected = l.clone();
    expected.sort_unstable();
    expected.dedup();
    cleanup_package_list(&mut l);
    assert_eq!(l, expected);
}

#[test]
fn only_in_first_keeps_order_and_repetitions() {
    let l1 = list(&["d", "a", "x", "a", "b"]);
    let l2 = list(&["b", "d"]);
    assert_eq!(compare_lists_only_in_first(&l1, &l2), list(&["a", "x", "a"]));
}

#[test]
fn in_both_keeps_order_and_repetitions() {
    let l1 = list(&["d", "a", "x", "d", "b"]);
    let l2 = list(&["b", "d"]);
    assert_eq!(compare_lists_in_both(&l1, &l2), list(&["d", "d", "b"]));
}

#[test]
fn list_operations_with_an_empty_list() {
    let l = list(&["a", "b"]);
    let none: Vec<String> = Vec::new();
    assert_eq!(compare_lists_only_in_first(&l, &none), l);
    assert_eq!(compare_lists_in_both(&l, &none), none);
    assert_eq!(compare_lists_only_in_first(&none, &l), none);
    assert_eq!(compare_lists_in_both(&none, &l), none);
}

#[test]
fn concat_puts_the_second_list_after_the_first() {
    assert_eq!(pkgsync::names::concat(&list(&["a", "b"]), &list(&["c"])), list(&["a", "b", "c"]));
    assert_eq!(pkgsync::names::concat(&[1, 2], &[] as &[i32]), vec![1, 2]);
    assert_eq!(pkgsync::names::concat(&[] as &[i32], &[3]), vec![3]);
}

#[test]
fn clone_names_copies_the_list() {
    let l = list(&["b", "a"]);
    assert_eq!(clone_names(&l), l);
}

#[test]
fn package_set_from_list() {
    let set = PackageSet::from_list(list(&["c", "a", "b", "a"]));
    assert_eq!(set.to_vec(), list(&["a", "b", "c"]));
    assert_eq!(set.as_slice(), &list(&["a", "b", "c"])[..]);
    assert_eq!(set.len(), 3);
    assert!(!set.is_empty());
    assert!(set.contains("b"));
    assert!(!set.contains("d"));
}

#[test]
fn empty_package_set() {
    let set = PackageSet::new();
    assert!(set.is_empty());
    assert_eq!(set.len(), 0);
    assert!(!set.contains("a"));
    assert!(PackageSet::from_list(Vec::new()).is_empty());
}

#[test]
fn package_set_difference_and_intersection() {
    let a = PackageSet::from_list(list(&["a", "b", "c", "d"]));
    let b = PackageSet::from_list(list(&["d", "b", "x"]));
    assert_eq!(a.difference(&b).to_vec(), list(&["a", "c"]));
    assert_eq!(a.intersection(&b).to_vec(), list(&["b", "d"]));
    assert_eq!(b.difference(&a).to_vec(), list(&["x"]));
    assert!(a.difference(&a).is_empty());
    assert_eq!(a.intersection(&a).to_vec(), a.to_vec());
}

#[test]
fn cleanup_reports_what_it_removes() {
    let mut l = list(&["vim", "bash", "zsh", "bash", "awk", "vim", "vim"]);
    let repeated = cleanup_reporting_duplicates(&mut l);
    assert_eq!(l, list(&["awk", "bash", "vim", "zsh"]));
    assert_eq!(repeated, list(&["bash", "vim", "vim"]));
}

#[test]
fn cleanup_reports_nothing_without_duplicates() {
    let mut l = list(&["b", "a", "c"]);
    assert!(cleanup_reporting_duplicates(&mut l).is_empty());
    assert_eq!(l, list(&["a", "b", "c"]));
    let mut none: Vec<String> = Vec::new();
    assert!(cleanup_reporting_duplicates(&mut none).is_empty());
}
