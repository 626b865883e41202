//! Validation of a request that swaps pairs of indexes.
//!
//! A request is a list of payloads, each naming exactly two indexes. The
//! names, flattened in order (left, right, left, right, ...), must all be
//! distinct; the caller must be allowed to access every one of them; and
//! every one of them must exist. Checks are made in that order, and the first
//! that fails decides the error.
use vstd::prelude::*;

verus! {

/// One swap of a request: the two indexes whose contents are exchanged.
#[derive(Clone, Debug, PartialEq, Eq)]
pub struct SwapIndexesPayload {
    pub indexes: Vec<String>,
}

/// Why a swap request is refused.
#[derive(Clone, Debug, PartialEq, Eq)]
pub enum SwapIndexesError {
    /// A payload does not name exactly two indexes.
    PayloadWrongLength { indexes: Vec<String> },
    /// One index is named more than once.
    DuplicateIndexFound { index: String },
    /// Several indexes are named more than once.
    DuplicateIndexesFound { indexes: Vec<String> },
    /// The caller may not access some of the indexes.
    InvalidToken,
    /// One index does not exist.
    IndexNotFound { index: String },
    /// Several indexes do not exist.
    IndexesNotFound { indexes: Vec<String> },
}

/// The names held by a list of strings.
pub open spec fn views(v: Seq<String>) -> Seq<Seq<char>> {
    v.map_values(|s: String| s@)
}

/// `x` is among the first `n` names at two positions.
pub open spec fn duplicated_before(s: Seq<Seq<char>>, n: int, x: Seq<char>) -> bool {
    exists|i: int, j: int| 0 <= j < i < n && #[trigger] s[i] == x && #[trigger] s[j] == x
}

/// `x` is named at least twice.
pub open spec fn is_duplicated(s: Seq<Seq<char>>, x: Seq<char>) -> bool {
    duplicated_before(s, s.len() as int, x)
}

/// `x` is among the first `n` names at a position whose index is unknown.
pub open spec fn missing_before(s: Seq<Seq<char>>, known: Seq<bool>, n: int, x: Seq<char>) -> bool {
    exists|i: int| 0 <= i < n && !known[i] && #[trigger] s[i] == x
}

/// `x` is named at a position whose index is unknown.
pub open spec fn is_missing(s: Seq<Seq<char>>, known: Seq<bool>, x: Seq<char>) -> bool {
    missing_before(s, known, s.len() as int, x)
}

fn copy_names(v: &Vec<String>) -> (r: Vec<String>)
    ensures
        r@ == v@,
{
    let mut r: Vec<String> = Vec::new();
    let mut i: usize = 0;
    while i < v.len()
        invariant
            i <= v.len(),
            r@ == v@.subrange(0, i as int),
        decreases v.len() - i,
    {
        r.push(v[i].clone());
        i = i + 1;
    }
    assert(r@ =~= v@);
    r
}

fn contains_name(list: &Vec<String>, name: &String) -> (r: bool)
    ensures
        r == views(list@).contains(name@),
{
    let mut i: usize = 0;
    while i < list.len()
        invariant
            i <= list.len(),
            forall|k: int| 0 <= k < i ==> list@[k]@ != name@,
        decreases list.len() - i,
    {
        if list[i] == *name {
            assert(views(list@)[i as int] == name@);
            return true;
        }
        i = i + 1;
    }
    assert forall|k: int| 0 <= k < views(list@).len() implies views(list@)[k] != name@ by {
        assert(list@[k]@ != name@);
    }
    false
}

fn push_unique(list: &mut Vec<String>, name: &String)
    requires
        views(old(list)@).no_duplicates(),
    ensures
        views(final(list)@).no_duplicates(),
        forall|x: Seq<char>|
            #[trigger] views(final(list)@).contains(x) <==> views(old(list)@).contains(x) || x
                == name@,
{
    if !contains_name(list, name) {
        let ghost before = views(list@);
        list.push(name.clone());
        assert(views(list@) =~= before.push(name@));
        assert forall|x: Seq<char>| #[trigger] views(list@).contains(x) implies before.contains(x)
            || x == name@ by {
            let k = choose|k: int| 0 <= k < views(list@).len() && views(list@)[k] == x;
            if k < before.len() {
                assert(before[k] == x);
            }
        }
        assert forall|x: Seq<char>| before.contains(x) implies #[trigger] views(list@).contains(x) by {
            let k = choose|k: int| 0 <= k < before.len() && before[k] == x;
            assert(views(list@)[k] == x);
        }
        assert(views(list@)[before.len() as int] == name@);
    }
}

/// Some earlier name equals the name at `i`.
fn seen_before(names: &Vec<String>, i: usize) -> (r: bool)
    requires
        i < names.len(),
    ensures
        r == exists|j: int| 0 <= j < i && #[trigger] views(names@)[j] == views(names@)[i as int],
{
    let mut j: usize = 0;
    while j < i
        invariant
            j <= i < names.len(),
            forall|k: int| 0 <= k < j ==> names@[k]@ != names@[i as int]@,
        decreases i - j,
    {
        if names[j] == names[i] {
            assert(views(names@)[j as int] == views(names@)[i as int]);
            return true;
        }
        j = j + 1;
    }
    assert forall|k: int| 0 <= k < i implies #[trigger] views(names@)[k] != views(names@)[i as int] by {
        assert(names@[k]@ != names@[i as int]@);
    }
    false
}

/// The pairs of a request flattened into one list of names, or the first
/// payload that does not name exactly two indexes.
pub fn swap_names(payloads: &Vec<SwapIndexesPayload>) -> (r: Result<Vec<String>, SwapIndexesError>)
    ensures
        match r {
            Ok(names) => {
                &&& forall|p: int| 0 <= p < payloads@.len() ==> #[trigger] payloads@[p].indexes@.len() == 2
                &&& names@.len() == 2 * payloads@.len()
                &&& forall|k: int| 0 <= k < names@.len() ==> #[trigger] names@[k] == payloads@[k / 2].indexes@[k % 2]
            },
            Err(SwapIndexesError::PayloadWrongLength { indexes }) => exists|p: int|
                0 <= p < payloads@.len() && #[trigger] payloads@[p].indexes@.len() != 2 && (forall|q: int|
                    0 <= q < p ==> #[trigger] payloads@[q].indexes@.len() == 2) && indexes@ == payloads@[p].indexes@,
            Err(_) => false,
        },
{
    let mut names: Vec<String> = Vec::new();
    let mut p: usize = 0;
    while p < payloads.len()
        invariant
            p <= payloads.len(),
            forall|q: int| 0 <= q < p ==> #[trigger] payloads@[q].indexes@.len() == 2,
            names@.len() == 2 * p,
            forall|k: int| 0 <= k < names@.len() ==> #[trigger] names@[k] == payloads@[k / 2].indexes@[k % 2],
        decreases payloads.len() - p,
    {
        let indexes = &payloads[p].indexes;
        if indexes.len() != 2 {
            return Err(SwapIndexesError::PayloadWrongLength { indexes: copy_names(indexes) });
        }
        names.push(indexes[0].clone());
        names.push(indexes[1].clone());
        p = p + 1;
    }
    Ok(names)
}

/// The names given more than once, each once.
fn duplicates(names: &Vec<String>) -> (r: Vec<String>)
    ensures
        views(r@).no_duplicates(),
        forall|x: Seq<char>| #[trigger] views(r@).contains(x) <==> is_duplicated(views(names@), x),
{
    let ghost v = views(names@);
    let mut dups: Vec<String> = Vec::new();
    let mut i: usize = 0;
    assert(views(dups@) =~= Seq::<Seq<char>>::empty());
    while i < names.len()
        invariant
            i <= names.len(),
            v == views(names@),
            views(dups@).no_duplicates(),
            forall|x: Seq<char>| #[trigger] views(dups@).contains(x) <==> duplicated_before(v, i as int, x),
        decreases names.len() - i,
    {
        let seen = seen_before(names, i);
        let ghost old_dups = views(dups@);
        if seen {
            push_unique(&mut dups, &names[i]);
        }
        assert forall|x: Seq<char>| #[trigger] views(dups@).contains(x) <==> duplicated_before(
            v,
            i + 1,
            x,
        ) by {
            if duplicated_before(v, i + 1, x) {
                let (a, b) = choose|a: int, b: int| 0 <= b < a < i + 1 && #[trigger] v[a] == x && #[trigger] v[b] == x;
                if a < i {
                    assert(duplicated_before(v, i as int, x));
                } else {
                    assert(v[b] == v[i as int]);
                    assert(seen);
                }
            }
            if views(dups@).contains(x) {
                if old_dups.contains(x) {
                    let (a, b) = choose|a: int, b: int| 0 <= b < a < i && #[trigger] v[a] == x && #[trigger] v[b] == x;
                    assert(v[a] == x && v[b] == x);
                } else {
                    let j = choose|j: int| 0 <= j < i && #[trigger] v[j] == v[i as int];
                    assert(v[i as int] == x && v[j] == x);
                }
            }
        }
        i = i + 1;
    }
    dups
}

/// The names at positions whose index is unknown, each once.
fn missing(names: &Vec<String>, known: &Vec<bool>) -> (r: Vec<String>)
    requires
        known@.len() == names@.len(),
    ensures
        views(r@).no_duplicates(),
        forall|x: Seq<char>| #[trigger] views(r@).contains(x) <==> is_missing(views(names@), known@, x),
{
    let ghost v = views(names@);
    let mut out: Vec<String> = Vec::new();
    let mut i: usize = 0;
    assert(views(out@) =~= Seq::<Seq<char>>::empty());
    while i < names.len()
        invariant
            i <= names.len(),
            known@.len() == names@.len(),
            v == views(names@),
            views(out@).no_duplicates(),
            forall|x: Seq<char>| #[trigger] views(out@).contains(x) <==> missing_before(v, known@, i as int, x),
        decreases names.len() - i,
    {
        let ghost old_out = views(out@);
        if !known[i] {
            push_unique(&mut out, &names[i]);
        }
        assert forall|x: Seq<char>| #[trigger] views(out@).contains(x) <==> missing_before(
            v,
            known@,
            i + 1,
            x,
        ) by {
            if missing_before(v, known@, i + 1, x) {
                let a = choose|a: int| 0 <= a < i + 1 && !known@[a] && #[trigger] v[a] == x;
                if a < i {
                    assert(missing_before(v, known@, i as int, x));
                }
            }
            if views(out@).contains(x) && !old_out.contains(x) {
                assert(v[i as int] == x);
            }
        }
        i = i + 1;
    }
    out
}

/// Whether every flag is set.
fn all_set(flags: &Vec<bool>) -> (r: bool)
    ensures
        r == forall|i: int| 0 <= i < flags@.len() ==> #[trigger] flags@[i],
{
    let mut i: usize = 0;
    while i < flags.len()
        invariant
            i <= flags.len(),
            forall|k: int| 0 <= k < i ==> #[trigger] flags@[k],
        decreases flags.len() - i,
    {
        if !flags[i] {
            return false;
        }
        i = i + 1;
    }
    true
}

/// Checks the flattened names of a swap request. `authorized[i]` tells
/// whether the caller may access the index named at `i`, `known[i]` whether
/// that index exists. Duplicates are reported first, then a missing right of
/// access, then unknown indexes; where a list of names is returned, it holds
/// each offending name once, in no particular order.
pub fn check_swap_names(names: &Vec<String>, authorized: &Vec<bool>, known: &Vec<bool>) -> (r: Result<
    (),
    SwapIndexesError,
>)
    requires
        authorized@.len() == names@.len(),
        known@.len() == names@.len(),
    ensures
        ({
            let v = views(names@);
            let no_dup = forall|x: Seq<char>| !#[trigger] is_duplicated(v, x);
            let all_authorized = forall|i: int| 0 <= i < v.len() ==> #[trigger] authorized@[i];
            match r {
                Ok(()) => no_dup && all_authorized && forall|i: int|
                    0 <= i < v.len() ==> #[trigger] known@[i],
                Err(SwapIndexesError::DuplicateIndexFound { index }) => {
                    &&& is_duplicated(v, index@)
                    &&& forall|x: Seq<char>| #[trigger] is_duplicated(v, x) <==> x == index@
                },
                Err(SwapIndexesError::DuplicateIndexesFound { indexes }) => {
                    &&& indexes@.len() >= 2
                    &&& is_duplicated(v, indexes@[0]@) && is_duplicated(v, indexes@[1]@)
                    &&& views(indexes@).no_duplicates()
                    &&& forall|x: Seq<char>| #[trigger] views(indexes@).contains(x) <==> is_duplicated(v, x)
                },
                Err(SwapIndexesError::InvalidToken) => no_dup && !all_authorized,
                Err(SwapIndexesError::IndexNotFound { index }) => {
                    &&& no_dup && all_authorized
                    &&& is_missing(v, known@, index@)
                    &&& forall|x: Seq<char>| #[trigger] is_missing(v, known@, x) <==> x == index@
                },
                Err(SwapIndexesError::IndexesNotFound { indexes }) => {
                    &&& no_dup && all_authorized
                    &&& indexes@.len() >= 2
                    &&& is_missing(v, known@, indexes@[0]@) && is_missing(v, known@, indexes@[1]@)
                    &&& views(indexes@).no_duplicates()
                    &&& forall|x: Seq<char>| #[trigger] views(indexes@).contains(x) <==> is_missing(v, known@, x)
                },
                Err(SwapIndexesError::PayloadWrongLength { .. }) => false,
            }
        }),
{
    let ghost v = views(names@);
    let dups = duplicates(names);
    if dups.len() == 1 {
        let index = dups[0].clone();
        assert(views(dups@)[0] == index@);
        assert forall|x: Seq<char>| #[trigger] is_duplicated(v, x) <==> x == index@ by {
            if is_duplicated(v, x) {
                assert(views(dups@).contains(x));
            }
            assert(views(dups@).contains(index@));
        }
        return Err(SwapIndexesError::DuplicateIndexFound { index });
    }
    if dups.len() > 1 {
        assert(views(dups@).contains(views(dups@)[0]));
        assert(views(dups@).contains(views(dups@)[1]));
        return Err(SwapIndexesError::DuplicateIndexesFound { indexes: dups });
    }
    assert forall|x: Seq<char>| !#[trigger] is_duplicated(v, x) by {
        if is_duplicated(v, x) {
            assert(views(dups@).contains(x));
        }
    }
    if !all_set(authorized) {
        return Err(SwapIndexesError::InvalidToken);
    }
    let unknown = missing(names, known);
    if unknown.len() == 1 {
        let index = unknown[0].clone();
        assert(views(unknown@)[0] == index@);
        assert forall|x: Seq<char>| #[trigger] is_missing(v, known@, x) <==> x == index@ by {
            if is_missing(v, known@, x) {
                assert(views(unknown@).contains(x));
            }
            assert(views(unknown@).contains(index@));
        }
        return Err(SwapIndexesError::IndexNotFound { index });
    }
    if unknown.len() > 1 {
        assert(views(unknown@).contains(views(unknown@)[0]));
        assert(views(unknown@).contains(views(unknown@)[1]));
        return Err(SwapIndexesError::IndexesNotFound { indexes: unknown });
    }
    assert forall|i: int| 0 <= i < v.len() implies #[trigger] known@[i] by {
        if !known@[i] {
            assert(missing_before(v, known@, v.len() as int, v[i]));
            assert(views(unknown@).contains(v[i]));
        }
    }
    Ok(())
}

} // verus!
