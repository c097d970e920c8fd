use vstd::prelude::*;

verus! {

/// Index of the last occurrence of `c` in `s`, or -1 if `c` does not occur.
pub open spec fn last_index_of(s: Seq<char>, c: char) -> int
    decreases s.len(),
{
    if s.len() == 0 {
        -1
    } else if s[s.len() - 1] == c {
        s.len() - 1
    } else {
        last_index_of(s.drop_last(), c)
    }
}

pub proof fn lemma_last_index_of_absent(s: Seq<char>, c: char)
    requires
        forall|j: int| 0 <= j < s.len() ==> s[j] != c,
    ensures
        last_index_of(s, c) == -1,
    decreases s.len(),
{
    if s.len() > 0 {
        assert(forall|j: int| 0 <= j < s.drop_last().len() ==> s.drop_last()[j] == s[j]);
        lemma_last_index_of_absent(s.drop_last(), c);
    }
}

pub proof fn lemma_last_index_of_at(s: Seq<char>, c: char, i: int)
    requires
        0 <= i < s.len(),
        s[i] == c,
        forall|j: int| i < j < s.len() ==> s[j] != c,
    ensures
        last_index_of(s, c) == i,
    decreases s.len(),
{
    if i == s.len() - 1 {
    } else {
        assert(s[s.len() - 1] != c);
        assert(forall|j: int| 0 <= j < s.drop_last().len() ==> s.drop_last()[j] == s[j]);
        lemma_last_index_of_at(s.drop_last(), c, i);
    }
}

pub proof fn lemma_last_index_of_props(s: Seq<char>, c: char)
    ensures
        last_index_of(s, c) >= 0 ==> {
            &&& last_index_of(s, c) < s.len()
            &&& s[last_index_of(s, c)] == c
            &&& forall|j: int| last_index_of(s, c) < j < s.len() ==> s[j] != c
        },
        last_index_of(s, c) == -1 ==> forall|j: int| 0 <= j < s.len() ==> s[j] != c,
        -1 <= last_index_of(s, c) < s.len(),
    decreases s.len(),
{
    if s.len() > 0 && s[s.len() - 1] != c {
        lemma_last_index_of_props(s.drop_last(), c);
        assert(forall|j: int| 0 <= j < s.drop_last().len() ==> s.drop_last()[j] == s[j]);
    }
}

/// `dir` and `name` joined with a single separator.
pub open spec fn join_spec(dir: Seq<char>, name: Seq<char>) -> Seq<char> {
    dir + seq!['/'] + name
}

/// Everything before the last separator; empty if there is none.
pub open spec fn parent_spec(path: Seq<char>) -> Seq<char> {
    let k = last_index_of(path, '/');
    if k >= 0 {
        path.subrange(0, k)
    } else {
        Seq::empty()
    }
}

/// The final component: everything after the last separator, or the whole
/// path if there is none.
pub open spec fn base_name_spec(path: Seq<char>) -> Seq<char> {
    let k = last_index_of(path, '/');
    path.subrange(k + 1, path.len() as int)
}

/// Splitting a joined path recovers its two parts, provided the name holds
/// no separator — as no single directory entry's name does.
pub proof fn lemma_join_split(dir: Seq<char>, name: Seq<char>)
    requires
        forall|i: int| 0 <= i < name.len() ==> name[i] != '/',
    ensures
        parent_spec(join_spec(dir, name)) == dir,
        base_name_spec(join_spec(dir, name)) == name,
{
    let j = join_spec(dir, name);
    assert(j[dir.len() as int] == '/');
    assert(forall|k: int| dir.len() < k < j.len() ==> j[k] == name[k - dir.len() - 1]);
    lemma_last_index_of_at(j, '/', dir.len() as int);
    assert(j.subrange(0, dir.len() as int) =~= dir);
    assert(j.subrange(dir.len() as int + 1, j.len() as int) =~= name);
}

/// Position of the last occurrence of `c` in `s`, if any.
pub fn find_last_char(s: &str, c: char) -> (r: Option<usize>)
    ensures
        match r {
            Some(i) => i < s@.len() && last_index_of(s@, c) == i as int,
            None => last_index_of(s@, c) == -1,
        },
{
    let n = s.unicode_len();
    let mut i = n;
    while i > 0
        invariant
            i <= n,
            n == s@.len(),
            forall|j: int| i <= j < s@.len() ==> s@[j] != c,
        decreases i,
    {
        i = i - 1;
        if s.get_char(i) == c {
            proof {
                lemma_last_index_of_at(s@, c, i as int);
            }
            return Some(i);
        }
    }
    proof {
        lemma_last_index_of_absent(s@, c);
    }
    None
}

/// `dir` and `name` joined with a single separator.
pub fn join_path(dir: &str, name: &str) -> (r: String)
    ensures
        r@ == join_spec(dir@, name@),
{
    proof {
        reveal_strlit("/");
    }
    let mut r = dir.to_owned();
    r.append("/");
    r.append(name);
    proof {
        assert(("/")@ =~= seq!['/']);
        assert(r@ =~= join_spec(dir@, name@));
    }
    r
}

/// Everything before the last separator; empty if there is none.
pub fn parent_of(path: &str) -> (r: String)
    ensures
        r@ == parent_spec(path@),
{
    match find_last_char(path, '/') {
        Some(k) => path.substring_char(0, k).to_owned(),
        None => String::new(),
    }
}

/// The final component of a path.
pub fn base_name_of(path: &str) -> (r: String)
    ensures
        r@ == base_name_spec(path@),
{
    let n = path.unicode_len();
    match find_last_char(path, '/') {
        Some(k) => path.substring_char(k + 1, n).to_owned(),
        None => {
            let r = path.to_owned();
            proof {
                assert(r@ =~= base_name_spec(path@));
            }
            r
        },
    }
}

} // verus!
