use vstd::prelude::*;

use crate::timefmt::format_timestamp;
use crate::timefmt::timestamp_label;

verus! {

broadcast use {vstd::seq_lib::group_to_multiset_ensures, vstd::multiset::group_multiset_axioms};

/// One child of a directory as the OS reports it, before classification:
/// name, full path, kind, size in bytes, and the last-access time in seconds
/// since the Unix epoch where the filesystem offers one.
pub struct RawEntry {
    pub name: String,
    pub path: String,
    pub is_dir: bool,
    pub size: u64,
    pub accessed_secs: Option<i64>,
}

/// The mathematical image of a `RawEntry`.
pub struct RawEntryV {
    pub name: Seq<char>,
    pub path: Seq<char>,
    pub is_dir: bool,
    pub size: u64,
    pub accessed_secs: Option<i64>,
}

impl View for RawEntry {
    type V = RawEntryV;

    open spec fn view(&self) -> RawEntryV {
        RawEntryV {
            name: self.name@,
            path: self.path@,
            is_dir: self.is_dir,
            size: self.size,
            accessed_secs: self.accessed_secs,
        }
    }
}

/// One classified listing entry: a directory, or a file with its size and
/// its formatted last-access label (empty where unavailable).
#[derive(Debug)]
pub enum Entry {
    Directory { name: String, path: String },
    File { name: String, size: u64, path: String, access: String },
}

/// The mathematical image of an `Entry`.
pub enum EntryV {
    Directory { name: Seq<char>, path: Seq<char> },
    File { name: Seq<char>, size: u64, path: Seq<char>, access: Seq<char> },
}

impl View for Entry {
    type V = EntryV;

    open spec fn view(&self) -> EntryV {
        match self {
            Entry::Directory { name, path } => EntryV::Directory { name: name@, path: path@ },
            Entry::File { name, size, path, access } => EntryV::File {
                name: name@,
                size: *size,
                path: path@,
                access: access@,
            },
        }
    }
}

pub open spec fn entry_is_dir(e: EntryV) -> bool {
    e is Directory
}

pub open spec fn entry_name(e: EntryV) -> Seq<char> {
    match e {
        EntryV::Directory { name, .. } => name,
        EntryV::File { name, .. } => name,
    }
}

pub open spec fn entry_path(e: EntryV) -> Seq<char> {
    match e {
        EntryV::Directory { path, .. } => path,
        EntryV::File { path, .. } => path,
    }
}

impl Entry {
    pub fn is_dir(&self) -> (r: bool)
        ensures
            r == entry_is_dir(self@),
    {
        match self {
            Entry::Directory { .. } => true,
            Entry::File { .. } => false,
        }
    }

    pub fn name(&self) -> (r: &String)
        ensures
            r@ == entry_name(self@),
    {
        match self {
            Entry::Directory { name, .. } => name,
            Entry::File { name, .. } => name,
        }
    }

    pub fn path(&self) -> (r: &String)
        ensures
            r@ == entry_path(self@),
    {
        match self {
            Entry::Directory { path, .. } => path,
            Entry::File { path, .. } => path,
        }
    }
}

/// Lexicographic order on character sequences by Unicode scalar value —
/// on ASCII names this is exactly case-sensitive byte order.
pub open spec fn lex_le(a: Seq<char>, b: Seq<char>) -> bool
    decreases a.len(),
{
    if a.len() == 0 {
        true
    } else if b.len() == 0 {
        false
    } else if a[0] == b[0] {
        lex_le(a.drop_first(), b.drop_first())
    } else {
        (a[0] as u32) < (b[0] as u32)
    }
}

proof fn lemma_char_neq_u32(a: char, b: char)
    requires
        a != b,
    ensures
        a as u32 != b as u32,
{
    vstd::utf8::char_u32_cast(a, a as u32);
    vstd::utf8::char_u32_cast(b, b as u32);
}

pub proof fn lemma_lex_le_total(a: Seq<char>, b: Seq<char>)
    ensures
        lex_le(a, b) || lex_le(b, a),
    decreases a.len(),
{
    if a.len() > 0 && b.len() > 0 {
        if a[0] == b[0] {
            lemma_lex_le_total(a.drop_first(), b.drop_first());
        } else {
            lemma_char_neq_u32(a[0], b[0]);
        }
    }
}

pub proof fn lemma_lex_le_trans(a: Seq<char>, b: Seq<char>, c: Seq<char>)
    requires
        lex_le(a, b),
        lex_le(b, c),
    ensures
        lex_le(a, c),
    decreases a.len(),
{
    if a.len() > 0 {
        assert(b.len() > 0);
        assert(c.len() > 0);
        if a[0] == b[0] && b[0] == c[0] {
            lemma_lex_le_trans(a.drop_first(), b.drop_first(), c.drop_first());
        } else if a[0] == b[0] {
            assert(a[0] != c[0]);
        } else if b[0] == c[0] {
            assert(a[0] != c[0]);
        } else {
            assert((a[0] as u32) < (c[0] as u32));
            assert(a[0] != c[0]);
        }
    }
}

pub proof fn lemma_lex_le_antisym(a: Seq<char>, b: Seq<char>)
    requires
        lex_le(a, b),
        lex_le(b, a),
    ensures
        a == b,
    decreases a.len(),
{
    if a.len() == 0 {
        assert(b.len() == 0);
        assert(a =~= b);
    } else {
        assert(b.len() > 0);
        if a[0] == b[0] {
            lemma_lex_le_antisym(a.drop_first(), b.drop_first());
            assert forall|i: int| 0 <= i < a.len() implies a[i] == b[i] by {
                if i > 0 {
                    assert(a[i] == a.drop_first()[i - 1]);
                    assert(b[i] == b.drop_first()[i - 1]);
                }
            }
            assert(a =~= b);
        } else {
            assert(false);
        }
    }
}

/// The total order over (name, then full path) used inside each group.
pub open spec fn key_le(n1: Seq<char>, p1: Seq<char>, n2: Seq<char>, p2: Seq<char>) -> bool {
    if n1 == n2 {
        lex_le(p1, p2)
    } else {
        lex_le(n1, n2)
    }
}

/// Directories come before files.
pub open spec fn entry_rank(e: EntryV) -> int {
    if e is Directory {
        0
    } else {
        1
    }
}

/// The listing order: by group, then by (name, full path).
pub open spec fn entry_le(a: EntryV, b: EntryV) -> bool {
    ||| entry_rank(a) < entry_rank(b)
    ||| (entry_rank(a) == entry_rank(b) && key_le(
        entry_name(a),
        entry_path(a),
        entry_name(b),
        entry_path(b),
    ))
}

pub proof fn lemma_entry_le_total(a: EntryV, b: EntryV)
    ensures
        entry_le(a, b) || entry_le(b, a),
{
    if entry_rank(a) == entry_rank(b) {
        if entry_name(a) == entry_name(b) {
            lemma_lex_le_total(entry_path(a), entry_path(b));
        } else {
            lemma_lex_le_total(entry_name(a), entry_name(b));
        }
    }
}

pub proof fn lemma_entry_le_trans(a: EntryV, b: EntryV, c: EntryV)
    requires
        entry_le(a, b),
        entry_le(b, c),
    ensures
        entry_le(a, c),
{
    if entry_rank(a) == entry_rank(b) && entry_rank(b) == entry_rank(c) {
        let n1 = entry_name(a);
        let n2 = entry_name(b);
        let n3 = entry_name(c);
        if n1 == n2 && n2 == n3 {
            lemma_lex_le_trans(entry_path(a), entry_path(b), entry_path(c));
        } else if n1 == n2 {
        } else if n2 == n3 {
        } else {
            lemma_lex_le_trans(n1, n2, n3);
            if n1 == n3 {
                lemma_lex_le_antisym(n2, n3);
                assert(false);
            }
        }
    }
}

/// The views of a sequence of entries.
pub open spec fn seq_views(s: Seq<Entry>) -> Seq<EntryV> {
    s.map_values(|e: Entry| e@)
}

/// Every pair of positions respects the listing order: directories first,
/// each group ascending by (name, path).
pub open spec fn listing_sorted(s: Seq<EntryV>) -> bool {
    forall|i: int, j: int| 0 <= i < j < s.len() ==> entry_le(s[i], s[j])
}

/// What classification does to one raw entry. A file's access label is the
/// formatted timestamp, or empty where the OS offered none.
pub open spec fn access_label(a: Option<i64>) -> Seq<char> {
    match a {
        Some(s) => timestamp_label(s as int),
        None => Seq::empty(),
    }
}

pub open spec fn classify_spec(r: RawEntryV) -> EntryV {
    if r.is_dir {
        EntryV::Directory { name: r.name, path: r.path }
    } else {
        EntryV::File {
            name: r.name,
            size: r.size,
            path: r.path,
            access: access_label(r.accessed_secs),
        }
    }
}

/// Classify one raw entry.
pub fn classify(r: RawEntry) -> (e: Entry)
    ensures
        e@ == classify_spec(r@),
{
    if r.is_dir {
        Entry::Directory { name: r.name, path: r.path }
    } else {
        let access = match r.accessed_secs {
            Some(s) => format_timestamp(s),
            None => String::new(),
        };
        Entry::File { name: r.name, size: r.size, path: r.path, access }
    }
}

/// Whether `a@` comes no later than `b@` in the listing order.
fn lex_le_exec(a: &str, b: &str) -> (r: bool)
    ensures
        r == lex_le(a@, b@),
{
    let na = a.unicode_len();
    let nb = b.unicode_len();
    let mut i: usize = 0;
    proof {
        assert(a@.subrange(0, na as int) =~= a@);
        assert(b@.subrange(0, nb as int) =~= b@);
    }
    while i < na && i < nb
        invariant
            i <= na,
            i <= nb,
            na == a@.len(),
            nb == b@.len(),
            lex_le(a@, b@) == lex_le(
                a@.subrange(i as int, na as int),
                b@.subrange(i as int, nb as int),
            ),
        decreases na - i,
    {
        let ca = a.get_char(i);
        let cb = b.get_char(i);
        let ghost sa = a@.subrange(i as int, na as int);
        let ghost sb = b@.subrange(i as int, nb as int);
        if ca as u32 == cb as u32 {
            proof {
                vstd::utf8::char_u32_cast(ca, ca as u32);
                vstd::utf8::char_u32_cast(cb, cb as u32);
                assert(sa[0] == ca && sb[0] == cb);
                assert(sa.drop_first() =~= a@.subrange(i as int + 1, na as int));
                assert(sb.drop_first() =~= b@.subrange(i as int + 1, nb as int));
            }
            i = i + 1;
        } else {
            proof {
                assert(sa[0] == ca && sb[0] == cb);
                assert(lex_le(sa, sb) == ((ca as u32) < (cb as u32)));
            }
            return (ca as u32) < (cb as u32);
        }
    }
    proof {
        let sa = a@.subrange(i as int, na as int);
        let sb = b@.subrange(i as int, nb as int);
        if i == na {
            assert(sa.len() == 0);
            assert(lex_le(sa, sb));
        } else {
            assert(i == nb && nb < na);
            assert(sb.len() == 0 && sa.len() > 0);
            assert(!lex_le(sa, sb));
        }
    }
    na <= nb
}

fn entry_le_exec(a: &Entry, b: &Entry) -> (r: bool)
    ensures
        r == entry_le(a@, b@),
{
    let da = a.is_dir();
    let db = b.is_dir();
    if da && !db {
        true
    } else if !da && db {
        false
    } else {
        if *a.name() == *b.name() {
            lex_le_exec(a.path().as_str(), b.path().as_str())
        } else {
            lex_le_exec(a.name().as_str(), b.name().as_str())
        }
    }
}

/// Sort a vector of entries into the listing order, keeping exactly the
/// same entries.
fn sort_entries(v: &mut Vec<Entry>)
    ensures
        seq_views(final(v)@).to_multiset() == seq_views(old(v)@).to_multiset(),
        final(v)@.len() == old(v)@.len(),
        listing_sorted(seq_views(final(v)@)),
{
    let mut i: usize = 1;
    while i < v.len()
        invariant
            1 <= i,
            seq_views(v@).to_multiset() == seq_views(old(v)@).to_multiset(),
            v@.len() == old(v)@.len(),
            forall|p: int, q: int|
                0 <= p < q < i as int && q < v@.len() ==> entry_le(v@[p]@, v@[q]@),
        decreases v@.len() - i,
    {
        let mut j: usize = 0;
        let mut scanning = true;
        while scanning && j < i
            invariant
                j <= i,
                i < v@.len(),
                forall|p: int| 0 <= p < j ==> entry_le(v@[p]@, v@[i as int]@),
                !scanning ==> j < i && !entry_le(v@[j as int]@, v@[i as int]@),
            decreases i - j + (if scanning { 1int } else { 0int }),
        {
            if entry_le_exec(&v[j], &v[i]) {
                j = j + 1;
            } else {
                scanning = false;
            }
        }
        let ghost pre = v@;
        let x = v.remove(i);
        v.insert(j, x);
        proof {
            let xe = pre[i as int];
            let s1 = pre.remove(i as int);
            let s2 = s1.insert(j as int, xe);
            assert(v@ == s2);
            assert(seq_views(s1) =~= seq_views(pre).remove(i as int));
            assert(seq_views(s2) =~= seq_views(s1).insert(j as int, xe@));
            assert(seq_views(pre)[i as int] == xe@);
            assert(seq_views(pre).contains(xe@));
            assert(seq_views(pre).to_multiset().contains(xe@));
            assert(seq_views(s2).to_multiset() =~= seq_views(pre).to_multiset());
            // the prefix of length i + 1 is now in order
            assert forall|p: int, q: int|
                0 <= p < q < i as int + 1 && q < v@.len() implies entry_le(
                v@[p]@,
                v@[q]@,
            ) by {
                if !scanning {
                    lemma_entry_le_total(pre[j as int]@, xe@);
                }
                assert(forall|k: int| 0 <= k < j ==> v@[k] == pre[k]);
                assert(v@[j as int] == xe);
                assert(forall|k: int| j < k <= i ==> v@[k] == pre[k - 1]);
                if p < j && q == j {
                } else if p == j && q > j {
                    if q - 1 > j {
                        assert(entry_le(pre[j as int]@, pre[q - 1]@));
                        lemma_entry_le_trans(xe@, pre[j as int]@, pre[q - 1]@);
                    }
                } else {
                }
            }
        }
        i = i + 1;
    }
}

/// A listing is a pure rebuild of its snapshot: two listings built from the
/// same snapshot hold exactly the same entries — one per raw entry — however
/// often the listing is recomputed.
pub proof fn lemma_listing_stable(raw: Seq<RawEntry>, l1: Seq<Entry>, l2: Seq<Entry>)
    requires
        seq_views(l1).to_multiset() == raw.map_values(|r: RawEntry| classify_spec(r@)).to_multiset(),
        seq_views(l2).to_multiset() == raw.map_values(|r: RawEntry| classify_spec(r@)).to_multiset(),
        l1.len() == raw.len(),
        l2.len() == raw.len(),
    ensures
        seq_views(l1).to_multiset() == seq_views(l2).to_multiset(),
        l1.len() == l2.len(),
{
}

/// The shape of an ordered listing, read off pairwise: no directory ever
/// follows a file, and within one group names ascend.
pub proof fn lemma_listing_order_shape(s: Seq<EntryV>, i: int, j: int)
    requires
        listing_sorted(s),
        0 <= i < j < s.len(),
    ensures
        entry_is_dir(s[j]) ==> entry_is_dir(s[i]),
        entry_is_dir(s[i]) == entry_is_dir(s[j]) && entry_name(s[i]) != entry_name(s[j])
            ==> lex_le(entry_name(s[i]), entry_name(s[j])),
{
    assert(entry_le(s[i], s[j]));
}

/// The listing shows exactly the snapshot's names: a name appears in a
/// listing of `raw` if and only if some raw entry carries it. So after a
/// mutation, a fresh listing holds an entry under a name exactly when the
/// directory does — and none under a name the mutation removed.
pub proof fn lemma_listing_names(raw: Seq<RawEntry>, l: Seq<Entry>, name: Seq<char>)
    requires
        seq_views(l).to_multiset() == raw.map_values(|r: RawEntry| classify_spec(r@)).to_multiset(),
    ensures
        (exists|k: int| 0 <= k < l.len() && entry_name(l[k]@) == name) <==> (exists|k: int|
            0 <= k < raw.len() && raw[k]@.name == name),
{
    let mapped = raw.map_values(|r: RawEntry| classify_spec(r@));
    if exists|k: int| 0 <= k < l.len() && entry_name(l[k]@) == name {
        let k = choose|k: int| 0 <= k < l.len() && entry_name(l[k]@) == name;
        let e = l[k]@;
        assert(seq_views(l)[k] == e);
        assert(seq_views(l).contains(e));
        assert(mapped.to_multiset().count(e) > 0);
        assert(mapped.contains(e));
        let k2 = choose|k2: int| 0 <= k2 < mapped.len() && mapped[k2] == e;
        assert(raw[k2]@.name == name);
    }
    if exists|k: int| 0 <= k < raw.len() && raw[k]@.name == name {
        let k = choose|k: int| 0 <= k < raw.len() && raw[k]@.name == name;
        let e = classify_spec(raw[k]@);
        assert(mapped[k] == e);
        assert(mapped.contains(e));
        assert(seq_views(l).to_multiset().count(e) > 0);
        assert(seq_views(l).contains(e));
        let k2 = choose|k2: int| 0 <= k2 < seq_views(l).len() && seq_views(l)[k2] == e;
        assert(entry_name(l[k2]@) == name);
    }
}

/// Build the ordered listing from a directory snapshot: classify every raw
/// entry, then order the result with directories first and each group
/// ascending by (name, path). The result holds exactly the classified
/// entries — a full rebuild of the snapshot, nothing added, nothing lost.
pub fn build_listing(raw: Vec<RawEntry>) -> (listing: Vec<Entry>)
    ensures
        listing@.len() == raw@.len(),
        seq_views(listing@).to_multiset() == raw@.map_values(
            |r: RawEntry| classify_spec(r@),
        ).to_multiset(),
        listing_sorted(seq_views(listing@)),
{
    let ghost orig = raw@;
    let mut raw = raw;
    let mut out: Vec<Entry> = Vec::new();
    while raw.len() > 0
        invariant
            out@.len() + raw@.len() == orig.len(),
            raw@ =~= orig.subrange(out@.len() as int, orig.len() as int),
            forall|k: int| 0 <= k < out@.len() ==> out@[k]@ == classify_spec(orig[k]@),
        decreases raw@.len(),
    {
        let r = raw.remove(0);
        proof {
            assert(r == orig[out@.len() as int]);
        }
        let e = classify(r);
        out.push(e);
        proof {
            assert(raw@ =~= orig.subrange(out@.len() as int, orig.len() as int));
        }
    }
    proof {
        assert(seq_views(out@) =~= orig.map_values(|r: RawEntry| classify_spec(r@)));
    }
    sort_entries(&mut out);
    out
}

} // verus!
