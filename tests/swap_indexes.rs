use bench_orchestrator::swap_indexes::{
    check_swap_names, swap_names, SwapIndexesError, SwapIndexesPayload,
};

fn payload(names: &[&str]) -> SwapIndexesPayload {
    SwapIndexesPayload { indexes: names.iter().map(|s| s.to_string()).collect() }
}

fn strings(names: &[&str]) -> Vec<String> {
    names.iter().map(|s| s.to_string()).collect()
}

fn sorted(mut v: Vec<String>) -> Vec<String> {
    v.sort();
    v
}

#[test]
fn names_are_flattened_in_order() {
    let names = swap_names(&vec![payload(&["a", "b"]), payload(&["c", "d"])]).unwrap();
    assert_eq!(names, strings(&["a", "b", "c", "d"]));
    assert_eq!(swap_names(&vec![]).unwrap(), Vec::<String>::new());
}

#[test]
fn first_payload_of_wrong_length_is_reported() {
    let r = swap_names(&vec![payload(&["a", "b"]), payload(&["c"]), payload(&["d", "e", "f"])]);
    assert_eq!(r, Err(SwapIndexesError::PayloadWrongLength { indexes: strings(&["c"]) }));
    let r = swap_names(&vec![payload(&[])]);
    assert_eq!(r, Err(SwapIndexesError::PayloadWrongLength { indexes: vec![] }));
}

#[test]
fn valid_swaps_pass() {
    let names = strings(&["a", "b", "c", "d"]);
    assert_eq!(check_swap_names(&names, &vec![true; 4], &vec![true; 4]), Ok(()));
    assert_eq!(check_swap_names(&vec![], &vec![], &vec![]), Ok(()));
}

#[test]
fn single_duplicate() {
    let names = strings(&["a", "b", "b", "c"]);
    let r = check_swap_names(&names, &vec![false; 4], &vec![false; 4]);
    assert_eq!(r, Err(SwapIndexesError::DuplicateIndexFound { index: "b".to_string() }));
    let names = strings(&["a", "a", "a", "a"]);
    let r = check_swap_names(&names, &vec![true; 4], &vec![true; 4]);
    assert_eq!(r, Err(SwapIndexesError::DuplicateIndexFound { index: "a".to_string() }));
}

#[test]
fn several_duplicates() {
    let names = strings(&["a", "b", "b", "a", "c", "d"]);
    match check_swap_names(&names, &vec![true; 6], &vec![true; 6]) {
        Err(SwapIndexesError::DuplicateIndexesFound { indexes }) => {
            assert_eq!(sorted(indexes), strings(&["a", "b"]));
        }
        other => panic!("unexpected {other:?}"),
    }
}

#[test]
fn unauthorized_before_unknown() {
    let names = strings(&["a", "b", "c", "d"]);
    let r = check_swap_names(&names, &vec![true, true, false, true], &vec![false; 4]);
    assert_eq!(r, Err(SwapIndexesError::InvalidToken));
}

#[test]
fn single_unknown_index() {
    let names = strings(&["a", "b", "c", "d"]);
    let r = check_swap_names(&names, &vec![true; 4], &vec![true, true, true, false]);
    assert_eq!(r, Err(SwapIndexesError::IndexNotFound { index: "d".to_string() }));
}

#[test]
fn several_unknown_indexes() {
    let names = strings(&["a", "b", "c", "d"]);
    match check_swap_names(&names, &vec![true; 4], &vec![false, true, false, true]) {
        Err(SwapIndexesError::IndexesNotFound { indexes }) => {
            assert_eq!(sorted(indexes), strings(&["a", "c"]));
        }
        other => panic!("unexpected {other:?}"),
    }
}
