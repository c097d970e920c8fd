use vstd::prelude::*;

use crate::errors::EngineError;
use crate::pathops::last_index_of;
use crate::pathops::lemma_last_index_of_props;
use crate::pathops::find_last_char;

verus! {

/// How many disambiguation candidates are tried before the search gives up
/// with `NameSpaceExhausted`.
pub const SEARCH_BOUND: u64 = 100000;

/// The decimal digit `d` as a character.
pub open spec fn digit_char(d: nat) -> char {
    if d == 0 {
        '0'
    } else if d == 1 {
        '1'
    } else if d == 2 {
        '2'
    } else if d == 3 {
        '3'
    } else if d == 4 {
        '4'
    } else if d == 5 {
        '5'
    } else if d == 6 {
        '6'
    } else if d == 7 {
        '7'
    } else if d == 8 {
        '8'
    } else {
        '9'
    }
}

/// The usual decimal rendering of `n`, without sign or padding.
pub open spec fn dec_digits(n: nat) -> Seq<char>
    decreases n,
{
    if n < 10 {
        seq![digit_char(n)]
    } else {
        dec_digits(n / 10) + seq![digit_char(n % 10)]
    }
}

pub proof fn lemma_dec_digits_len(n: nat)
    ensures
        dec_digits(n).len() >= 1,
    decreases n,
{
    if n >= 10 {
        lemma_dec_digits_len(n / 10);
    }
}

fn digit_str(d: u64) -> (r: &'static str)
    requires
        d < 10,
    ensures
        r@ =~= seq![digit_char(d as nat)],
{
    proof {
        reveal_strlit("0");
        reveal_strlit("1");
        reveal_strlit("2");
        reveal_strlit("3");
        reveal_strlit("4");
        reveal_strlit("5");
        reveal_strlit("6");
        reveal_strlit("7");
        reveal_strlit("8");
        reveal_strlit("9");
    }
    match d {
        0 => "0",
        1 => "1",
        2 => "2",
        3 => "3",
        4 => "4",
        5 => "5",
        6 => "6",
        7 => "7",
        8 => "8",
        _ => "9",
    }
}

/// Decimal rendering of `n`.
pub fn u64_to_string(n: u64) -> (r: String)
    ensures
        r@ == dec_digits(n as nat),
    decreases n,
{
    if n < 10 {
        digit_str(n).to_owned()
    } else {
        proof {
            assert(n / 10 < n) by (nonlinear_arith)
                requires
                    n >= 10,
            ;
        }
        let hi = u64_to_string(n / 10);
        let lo = digit_str(n % 10);
        let r = hi.concat(lo);
        proof {
            assert(r@ =~= dec_digits(n as nat));
        }
        r
    }
}

/// Whether `name` already occurs among the entry names of a directory.
pub open spec fn name_taken(existing: Seq<String>, name: Seq<char>) -> bool {
    exists|j: int| 0 <= j < existing.len() && existing[j]@ == name
}

/// Whether `name` occurs among `existing`.
pub fn contains_name(existing: &Vec<String>, name: &str) -> (b: bool)
    ensures
        b == name_taken(existing@, name@),
{
    let name_owned: String = name.to_owned();
    let mut i: usize = 0;
    while i < existing.len()
        invariant
            i <= existing@.len(),
            name_owned@ == name@,
            forall|j: int| 0 <= j < i ==> existing@[j]@ != name@,
        decreases existing@.len() - i,
    {
        if existing[i] == name_owned {
            return true;
        }
        i = i + 1;
    }
    false
}

/// The `i`-th fallback for `desired` under the rename/paste scheme: the
/// counter is appended directly after the full desired name.
pub open spec fn general_candidate(desired: Seq<char>, i: nat) -> Seq<char> {
    desired + dec_digits(i)
}

/// The `i`-th fallback for `desired` under the creation scheme: `_` and the
/// counter go immediately before the final extension segment, or at the end
/// when there is no extension.
pub open spec fn create_candidate(desired: Seq<char>, i: nat) -> Seq<char> {
    let k = last_index_of(desired, '.');
    if k >= 0 {
        desired.subrange(0, k) + seq!['_'] + dec_digits(i) + desired.subrange(
            k,
            desired.len() as int,
        )
    } else {
        desired + seq!['_'] + dec_digits(i)
    }
}

/// The first free rename/paste candidate with counter at least `i`, if one
/// exists below the search bound.
pub open spec fn first_free_general(desired: Seq<char>, existing: Seq<String>, i: nat) -> Option<
    Seq<char>,
>
    decreases SEARCH_BOUND - i when i <= SEARCH_BOUND
{
    if i >= SEARCH_BOUND {
        None
    } else if !name_taken(existing, general_candidate(desired, i)) {
        Some(general_candidate(desired, i))
    } else {
        first_free_general(desired, existing, i + 1)
    }
}

/// The first free creation-scheme candidate with counter at least `i`.
pub open spec fn first_free_create(desired: Seq<char>, existing: Seq<String>, i: nat) -> Option<
    Seq<char>,
>
    decreases SEARCH_BOUND - i when i <= SEARCH_BOUND
{
    if i >= SEARCH_BOUND {
        None
    } else if !name_taken(existing, create_candidate(desired, i)) {
        Some(create_candidate(desired, i))
    } else {
        first_free_create(desired, existing, i + 1)
    }
}

/// What the rename/paste resolution returns: the desired name itself when it
/// is free, otherwise the first free numbered candidate, or nothing when the
/// search space is exhausted.
pub open spec fn resolve_general_spec(desired: Seq<char>, existing: Seq<String>) -> Option<
    Seq<char>,
> {
    if !name_taken(existing, desired) {
        Some(desired)
    } else {
        first_free_general(desired, existing, 0)
    }
}

/// What the creation-scheme resolution returns.
pub open spec fn resolve_create_spec(desired: Seq<char>, existing: Seq<String>) -> Option<
    Seq<char>,
> {
    if !name_taken(existing, desired) {
        Some(desired)
    } else {
        first_free_create(desired, existing, 0)
    }
}

/// The `i`-th rename/paste candidate for `desired`.
fn general_candidate_exec(desired: &str, i: u64) -> (r: String)
    ensures
        r@ == general_candidate(desired@, i as nat),
{
    let num = u64_to_string(i);
    let r = desired.to_owned().concat(num.as_str());
    proof {
        assert(r@ =~= general_candidate(desired@, i as nat));
    }
    r
}

/// The `i`-th creation-scheme candidate for `desired`.
fn create_candidate_exec(desired: &str, i: u64) -> (r: String)
    ensures
        r@ == create_candidate(desired@, i as nat),
{
    proof {
        reveal_strlit("_");
        assert(("_")@ =~= seq!['_']);
        lemma_last_index_of_props(desired@, '.');
    }
    let num = u64_to_string(i);
    match find_last_char(desired, '.') {
        Some(k) => {
            let n = desired.unicode_len();
            let mut r = desired.substring_char(0, k).to_owned();
            r.append("_");
            r.append(num.as_str());
            r.append(desired.substring_char(k, n));
            proof {
                assert(r@ =~= create_candidate(desired@, i as nat));
            }
            r
        },
        None => {
            let mut r = desired.to_owned();
            r.append("_");
            r.append(num.as_str());
            proof {
                assert(r@ =~= create_candidate(desired@, i as nat));
            }
            r
        },
    }
}

/// Resolve `desired` against `existing` with the rename/paste scheme:
/// `desired` itself if free, else `desired0`, `desired1`, … up to the search
/// bound.
pub fn resolve_general(desired: &str, existing: &Vec<String>) -> (r: Result<String, EngineError>)
    ensures
        match r {
            Ok(name) => {
                &&& Some(name@) == resolve_general_spec(desired@, existing@)
                &&& !name_taken(existing@, name@)
                &&& (name@ == desired@ <==> !name_taken(existing@, desired@))
            },
            Err(e) => {
                &&& e is NameSpaceExhausted
                &&& resolve_general_spec(desired@, existing@) is None
            },
        },
{
    if !contains_name(existing, desired) {
        return Ok(desired.to_owned());
    }
    let mut i: u64 = 0;
    while i < SEARCH_BOUND
        invariant
            i <= SEARCH_BOUND,
            name_taken(existing@, desired@),
            first_free_general(desired@, existing@, 0) == first_free_general(
                desired@,
                existing@,
                i as nat,
            ),
        decreases SEARCH_BOUND - i,
    {
        let cand = general_candidate_exec(desired, i);
        if !contains_name(existing, cand.as_str()) {
            proof {
                lemma_dec_digits_len(i as nat);
                assert(cand@.len() > desired@.len());
            }
            return Ok(cand);
        }
        i = i + 1;
    }
    Err(EngineError::NameSpaceExhausted)
}

/// Resolve `desired` against `existing` with the creation scheme:
/// `desired` itself if free, else the counter is inserted before the final
/// extension (`new_file_0.txt`), up to the search bound.
pub fn resolve_create(desired: &str, existing: &Vec<String>) -> (r: Result<String, EngineError>)
    ensures
        match r {
            Ok(name) => {
                &&& Some(name@) == resolve_create_spec(desired@, existing@)
                &&& !name_taken(existing@, name@)
                &&& (name@ == desired@ <==> !name_taken(existing@, desired@))
            },
            Err(e) => {
                &&& e is NameSpaceExhausted
                &&& resolve_create_spec(desired@, existing@) is None
            },
        },
{
    if !contains_name(existing, desired) {
        return Ok(desired.to_owned());
    }
    let mut i: u64 = 0;
    while i < SEARCH_BOUND
        invariant
            i <= SEARCH_BOUND,
            name_taken(existing@, desired@),
            first_free_create(desired@, existing@, 0) == first_free_create(
                desired@,
                existing@,
                i as nat,
            ),
        decreases SEARCH_BOUND - i,
    {
        let cand = create_candidate_exec(desired, i);
        if !contains_name(existing, cand.as_str()) {
            proof {
                lemma_dec_digits_len(i as nat);
                lemma_last_index_of_props(desired@, '.');
                assert(cand@.len() > desired@.len());
            }
            return Ok(cand);
        }
        i = i + 1;
    }
    Err(EngineError::NameSpaceExhausted)
}

} // verus!
