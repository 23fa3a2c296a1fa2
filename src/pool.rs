//! The predefined character sets and the construction of the pool.
use vstd::prelude::*;
use crate::error::{ErrorModel, GenError};

verus! {

/// How many predefined sets there are.
pub const SET_COUNT: usize = 5;

/// The characters of predefined set `k`, in canonical set order: digits,
/// lowercase letters, uppercase letters, separators, misc symbols.
pub open spec fn predefined(k: int) -> Seq<char> {
    if k == 0 {
        seq!['0', '1', '2', '3', '4', '5', '6', '7', '8', '9']
    } else if k == 1 {
        seq![
            'a', 'b', 'c', 'd', 'e', 'f', 'g', 'h', 'i', 'j', 'k', 'l', 'm',
            'n', 'o', 'p', 'q', 'r', 's', 't', 'u', 'v', 'w', 'x', 'y', 'z',
        ]
    } else if k == 2 {
        seq![
            'A', 'B', 'C', 'D', 'E', 'F', 'G', 'H', 'I', 'J', 'K', 'L', 'M',
            'N', 'O', 'P', 'Q', 'R', 'S', 'T', 'U', 'V', 'W', 'X', 'Y', 'Z',
        ]
    } else if k == 3 {
        seq!['-', '.', '_']
    } else if k == 4 {
        seq!['!', '*', '&', '#']
    } else {
        Seq::empty()
    }
}

/// The characters of the first `k` predefined sets that `sets` marks as
/// included, set after set in canonical order.
pub open spec fn included_sets(sets: Seq<bool>, k: int) -> Seq<char>
    decreases k,
{
    if k <= 0 {
        Seq::empty()
    } else {
        included_sets(sets, k - 1) + (if sets[k - 1] {
            predefined(k - 1)
        } else {
            Seq::empty()
        })
    }
}

/// The pool before any custom character is added or removed.
pub open spec fn base_pool(sets: Seq<bool>) -> Seq<char> {
    included_sets(sets, SET_COUNT as int)
}

/// The whole canonical pool: every predefined set, in canonical order.
pub open spec fn canonical_pool() -> Seq<char> {
    predefined(0) + predefined(1) + predefined(2) + predefined(3) + predefined(4)
}

/// The first index of `c` in `s` at or after `i`, or -1 if there is none.
pub open spec fn find_from(s: Seq<char>, c: char, i: int) -> int
    decreases s.len() - i,
{
    if i < 0 || i >= s.len() {
        -1
    } else if s[i] == c {
        i
    } else {
        find_from(s, c, i + 1)
    }
}

/// Appends the custom characters `add[i..]` to `pool` in order; fails on the
/// first one that is already present, with the pool as it was then.
pub open spec fn add_all(pool: Seq<char>, add: Seq<char>, i: int) -> Result<Seq<char>, ErrorModel>
    decreases add.len() - i,
{
    if i < 0 || i >= add.len() {
        Ok(pool)
    } else if pool.contains(add[i]) {
        Err(ErrorModel::DuplicateCharacter(add[i], pool))
    } else {
        add_all(pool.push(add[i]), add, i + 1)
    }
}

/// Removes the custom characters `rem[i..]` from `pool` in order, keeping the
/// order of the rest; fails on the first one that is absent, with the pool as
/// it was then.
pub open spec fn remove_all(pool: Seq<char>, rem: Seq<char>, i: int) -> Result<
    Seq<char>,
    ErrorModel,
>
    decreases rem.len() - i,
{
    if i < 0 || i >= rem.len() {
        Ok(pool)
    } else if !pool.contains(rem[i]) {
        Err(ErrorModel::CharacterNotFound(rem[i], pool))
    } else {
        remove_all(pool.remove(find_from(pool, rem[i], 0)), rem, i + 1)
    }
}

/// The pool that the set flags and the custom lists resolve to.
pub open spec fn pool_of(sets: Seq<bool>, add: Seq<char>, rem: Seq<char>) -> Result<
    Seq<char>,
    ErrorModel,
> {
    match add_all(base_pool(sets), add, 0) {
        Ok(p) => remove_all(p, rem, 0),
        Err(e) => Err(e),
    }
}

/// The characters of predefined set `k`.
pub fn predefined_set(k: usize) -> (r: Vec<char>)
    requires
        k < SET_COUNT,
    ensures
        r@ == predefined(k as int),
{
    let r = if k == 0 {
        vec!['0', '1', '2', '3', '4', '5', '6', '7', '8', '9']
    } else if k == 1 {
        vec![
            'a', 'b', 'c', 'd', 'e', 'f', 'g', 'h', 'i', 'j', 'k', 'l', 'm',
            'n', 'o', 'p', 'q', 'r', 's', 't', 'u', 'v', 'w', 'x', 'y', 'z',
        ]
    } else if k == 2 {
        vec![
            'A', 'B', 'C', 'D', 'E', 'F', 'G', 'H', 'I', 'J', 'K', 'L', 'M',
            'N', 'O', 'P', 'Q', 'R', 'S', 'T', 'U', 'V', 'W', 'X', 'Y', 'Z',
        ]
    } else if k == 3 {
        vec!['-', '.', '_']
    } else {
        vec!['!', '*', '&', '#']
    };
    assert(r@ =~= predefined(k as int));
    r
}

/// The first index of `c` in `s`, if `c` is there.
pub fn find_char(s: &Vec<char>, c: char) -> (r: Option<usize>)
    ensures
        r matches Some(k) ==> k as int == find_from(s@, c, 0) && k < s@.len() && s@[k as int] == c,
        r is None ==> !s@.contains(c),
{
    let mut i: usize = 0;
    while i < s.len()
        invariant
            i <= s@.len(),
            find_from(s@, c, i as int) == find_from(s@, c, 0),
            forall|j: int| 0 <= j < i ==> s@[j] != c,
        decreases s@.len() - i,
    {
        if s[i] == c {
            return Some(i);
        }
        i = i + 1;
    }
    None
}

/// Resolves the set flags (one per predefined set, in canonical order) and
/// the custom characters to add and to remove into the pool: the included
/// sets in canonical order, then each added character, then each removal.
pub fn build_pool(sets: &Vec<bool>, add: &Vec<char>, remove: &Vec<char>) -> (r: Result<
    Vec<char>,
    GenError,
>)
    requires
        sets@.len() == SET_COUNT,
    ensures
        r matches Ok(p) ==> pool_of(sets@, add@, remove@) == Ok::<Seq<char>, ErrorModel>(p@),
        r matches Err(e) ==> pool_of(sets@, add@, remove@) == Err::<Seq<char>, ErrorModel>(e@),
{
    let mut pool: Vec<char> = Vec::new();
    let mut k: usize = 0;
    while k < SET_COUNT
        invariant
            k <= SET_COUNT,
            sets@.len() == SET_COUNT,
            pool@ == included_sets(sets@, k as int),
        decreases SET_COUNT - k,
    {
        if sets[k] {
            let mut chars = predefined_set(k);
            pool.append(&mut chars);
        }
        k = k + 1;
        assert(pool@ =~= included_sets(sets@, k as int));
    }
    let mut i: usize = 0;
    while i < add.len()
        invariant
            i <= add@.len(),
            add_all(pool@, add@, i as int) == add_all(base_pool(sets@), add@, 0),
        decreases add@.len() - i,
    {
        let c = add[i];
        if let Some(_) = find_char(&pool, c) {
            return Err(GenError::DuplicateCharacter(c, pool));
        }
        pool.push(c);
        i = i + 1;
    }
    let ghost added = pool@;
    let mut j: usize = 0;
    while j < remove.len()
        invariant
            j <= remove@.len(),
            add_all(base_pool(sets@), add@, 0) == Ok::<Seq<char>, ErrorModel>(added),
            remove_all(pool@, remove@, j as int) == remove_all(added, remove@, 0),
        decreases remove@.len() - j,
    {
        let c = remove[j];
        match find_char(&pool, c) {
            Some(at) => {
                pool.remove(at);
            },
            None => {
                return Err(GenError::CharacterNotFound(c, pool));
            },
        }
        j = j + 1;
    }
    Ok(pool)
}

/// With every predefined set included and no custom character, the pool is
/// always the same: all predefined sets in canonical order.
pub proof fn lemma_default_pool_is_canonical()
    ensures
        pool_of(Seq::new(SET_COUNT as nat, |k: int| true), Seq::empty(), Seq::empty()) == Ok::<
            Seq<char>,
            ErrorModel,
        >(canonical_pool()),
{
    let sets = Seq::new(SET_COUNT as nat, |k: int| true);
    reveal_with_fuel(included_sets, 6);
    assert(base_pool(sets) =~= canonical_pool());
}

} // verus!
