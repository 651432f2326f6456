use crate::entry::{FileInfo, FileKind, Timestamp};
use std::cmp::Ordering;
use vstd::prelude::*;

verus! {

/// The field that entries are ordered by.
#[derive(Debug, Clone, Copy, PartialEq, Eq, Structural)]
pub enum SortKey {
    Name,
    Size,
    Time,
    Extension,
    Type,
    Owner,
    Group,
    Permissions,
    Inode,
    Unsorted,
}

/// How a listing is ordered.
///
/// `reverse` flips the order given by `key`; with `dirs_first` directories
/// come before everything else whether or not `reverse` is set.
/// `numeric_sort`, `version_sort` and `locale_sort` are carried for callers
/// and do not change the order.
#[derive(Debug, Clone, Copy)]
pub struct SortOptions {
    pub key: SortKey,
    pub reverse: bool,
    pub dirs_first: bool,
    pub case_sensitive: bool,
    pub numeric_sort: bool,
    pub version_sort: bool,
    pub locale_sort: bool,
}

impl Default for SortOptions {
    fn default() -> (r: Self)
        ensures
            r.key == SortKey::Name,
            !r.reverse,
            !r.dirs_first,
            r.case_sensitive,
            !r.numeric_sort,
            !r.version_sort,
            !r.locale_sort,
    {
        SortOptions {
            key: SortKey::Name,
            reverse: false,
            dirs_first: false,
            case_sensitive: true,
            numeric_sort: false,
            version_sort: false,
            locale_sort: false,
        }
    }
}

/// What `str::to_lowercase` makes of a text.
pub uninterp spec fn lower_of(s: Seq<char>) -> Seq<char>;

/// Relies on `str::to_lowercase`, whose result depends on the text alone.
#[verifier::external_body]
fn lowercase(s: &str) -> (r: String)
    ensures
        r@ == lower_of(s@),
{
    s.to_lowercase()
}

pub open spec fn flip(o: Ordering) -> Ordering {
    match o {
        Ordering::Less => Ordering::Greater,
        Ordering::Equal => Ordering::Equal,
        Ordering::Greater => Ordering::Less,
    }
}

pub open spec fn cmp_int(a: int, b: int) -> Ordering {
    if a < b {
        Ordering::Less
    } else if a > b {
        Ordering::Greater
    } else {
        Ordering::Equal
    }
}

/// Lexicographic order of texts by code point; a proper prefix comes first.
pub open spec fn cmp_text(a: Seq<char>, b: Seq<char>) -> Ordering
    decreases a.len(),
{
    if a.len() == 0 {
        if b.len() == 0 {
            Ordering::Equal
        } else {
            Ordering::Less
        }
    } else if b.len() == 0 {
        Ordering::Greater
    } else if (a[0] as u32) != (b[0] as u32) {
        cmp_int(a[0] as u32 as int, b[0] as u32 as int)
    } else {
        cmp_text(a.drop_first(), b.drop_first())
    }
}

/// The last index below `n` that holds a dot, or -1.
pub open spec fn last_dot(s: Seq<char>, n: int) -> int
    decreases n,
{
    if n <= 0 {
        -1
    } else if s[n - 1] == '.' {
        n - 1
    } else {
        last_dot(s, n - 1)
    }
}

/// The text after the last dot of a name; empty where it has no dot.
pub open spec fn extension_of(s: Seq<char>) -> Seq<char> {
    let d = last_dot(s, s.len() as int);
    if d < 0 {
        Seq::empty()
    } else {
        s.subrange(d + 1, s.len() as int)
    }
}

pub open spec fn case_key(s: Seq<char>, case_sensitive: bool) -> Seq<char> {
    if case_sensitive {
        s
    } else {
        lower_of(s)
    }
}

/// The fixed order of kinds: directory, symlink, block device, character
/// device, fifo, socket, then regular files and unknown kinds together.
pub open spec fn kind_rank(k: FileKind) -> int {
    match k {
        FileKind::Directory => 0,
        FileKind::Symlink => 1,
        FileKind::BlockDevice => 2,
        FileKind::CharDevice => 3,
        FileKind::Fifo => 4,
        FileKind::Socket => 5,
        FileKind::Regular | FileKind::Unknown => 6,
    }
}

/// An unknown time is older than every known one.
pub open spec fn cmp_time(a: Option<Timestamp>, b: Option<Timestamp>) -> Ordering {
    match (a, b) {
        (None, None) => Ordering::Equal,
        (None, Some(_)) => Ordering::Less,
        (Some(_), None) => Ordering::Greater,
        (Some(x), Some(y)) => if x.secs != y.secs {
            cmp_int(x.secs as int, y.secs as int)
        } else {
            cmp_int(x.nanos as int, y.nanos as int)
        },
    }
}

/// The order of two entries by the key alone, ascending.
pub open spec fn key_cmp(a: FileInfo, b: FileInfo, key: SortKey, case_sensitive: bool) -> Ordering {
    match key {
        SortKey::Name => cmp_text(
            case_key(a.name@, case_sensitive),
            case_key(b.name@, case_sensitive),
        ),
        SortKey::Size => cmp_int(a.size as int, b.size as int),
        SortKey::Time => cmp_time(a.modified, b.modified),
        SortKey::Extension => cmp_text(
            case_key(extension_of(a.name@), case_sensitive),
            case_key(extension_of(b.name@), case_sensitive),
        ),
        SortKey::Type => cmp_int(kind_rank(a.kind), kind_rank(b.kind)),
        SortKey::Owner => cmp_int(a.uid as int, b.uid as int),
        SortKey::Group => cmp_int(a.gid as int, b.gid as int),
        SortKey::Permissions => cmp_int(a.mode as int, b.mode as int),
        SortKey::Inode => cmp_int(a.inode as int, b.inode as int),
        SortKey::Unsorted => Ordering::Equal,
    }
}

pub open spec fn is_directory(e: FileInfo) -> bool {
    e.kind == FileKind::Directory
}

/// The order of two entries under the options: directories first when asked,
/// then the key's order, flipped under `reverse`.
pub open spec fn entry_cmp(a: FileInfo, b: FileInfo, o: SortOptions) -> Ordering {
    if o.dirs_first && is_directory(a) && !is_directory(b) {
        Ordering::Less
    } else if o.dirs_first && !is_directory(a) && is_directory(b) {
        Ordering::Greater
    } else if o.reverse {
        flip(key_cmp(a, b, o.key, o.case_sensitive))
    } else {
        key_cmp(a, b, o.key, o.case_sensitive)
    }
}


pub proof fn lemma_cmp_text_flip(a: Seq<char>, b: Seq<char>)
    ensures
        cmp_text(b, a) == flip(cmp_text(a, b)),
    decreases a.len(),
{
    if a.len() > 0 && b.len() > 0 && (a[0] as u32) == (b[0] as u32) {
        lemma_cmp_text_flip(a.drop_first(), b.drop_first());
    }
}

pub proof fn lemma_cmp_text_trans(a: Seq<char>, b: Seq<char>, c: Seq<char>)
    requires
        cmp_text(a, b) != Ordering::Greater,
        cmp_text(b, c) != Ordering::Greater,
    ensures
        cmp_text(a, c) != Ordering::Greater,
    decreases a.len(),
{
    if a.len() > 0 && b.len() > 0 && c.len() > 0 && (a[0] as u32) == (b[0] as u32) && (b[0]
        as u32) == (c[0] as u32) {
        lemma_cmp_text_trans(a.drop_first(), b.drop_first(), c.drop_first());
    }
}

/// Swapping two entries flips their order by key.
pub proof fn lemma_key_cmp_flip(a: FileInfo, b: FileInfo, key: SortKey, cs: bool)
    ensures
        key_cmp(b, a, key, cs) == flip(key_cmp(a, b, key, cs)),
{
    match key {
        SortKey::Name => lemma_cmp_text_flip(case_key(a.name@, cs), case_key(b.name@, cs)),
        SortKey::Extension => lemma_cmp_text_flip(
            case_key(extension_of(a.name@), cs),
            case_key(extension_of(b.name@), cs),
        ),
        _ => {},
    }
}

/// The order by key is transitive.
pub proof fn lemma_key_cmp_trans(a: FileInfo, b: FileInfo, c: FileInfo, key: SortKey, cs: bool)
    requires
        key_cmp(a, b, key, cs) != Ordering::Greater,
        key_cmp(b, c, key, cs) != Ordering::Greater,
    ensures
        key_cmp(a, c, key, cs) != Ordering::Greater,
{
    match key {
        SortKey::Name => lemma_cmp_text_trans(
            case_key(a.name@, cs),
            case_key(b.name@, cs),
            case_key(c.name@, cs),
        ),
        SortKey::Extension => lemma_cmp_text_trans(
            case_key(extension_of(a.name@), cs),
            case_key(extension_of(b.name@), cs),
            case_key(extension_of(c.name@), cs),
        ),
        _ => {},
    }
}

/// Swapping two entries flips their order.
pub proof fn lemma_entry_cmp_flip(a: FileInfo, b: FileInfo, o: SortOptions)
    ensures
        entry_cmp(b, a, o) == flip(entry_cmp(a, b, o)),
{
    lemma_key_cmp_flip(a, b, o.key, o.case_sensitive);
}

/// The order of entries is transitive.
pub proof fn lemma_entry_cmp_trans(a: FileInfo, b: FileInfo, c: FileInfo, o: SortOptions)
    requires
        entry_cmp(a, b, o) != Ordering::Greater,
        entry_cmp(b, c, o) != Ordering::Greater,
    ensures
        entry_cmp(a, c, o) != Ordering::Greater,
{
    lemma_key_cmp_flip(a, b, o.key, o.case_sensitive);
    lemma_key_cmp_flip(b, c, o.key, o.case_sensitive);
    lemma_key_cmp_flip(a, c, o.key, o.case_sensitive);
    if o.reverse {
        if key_cmp(c, b, o.key, o.case_sensitive) != Ordering::Greater && key_cmp(
            b,
            a,
            o.key,
            o.case_sensitive,
        ) != Ordering::Greater {
            lemma_key_cmp_trans(c, b, a, o.key, o.case_sensitive);
        }
    } else {
        if key_cmp(a, b, o.key, o.case_sensitive) != Ordering::Greater && key_cmp(
            b,
            c,
            o.key,
            o.case_sensitive,
        ) != Ordering::Greater {
            lemma_key_cmp_trans(a, b, c, o.key, o.case_sensitive);
        }
    }
}

fn order_of_u64(a: u64, b: u64) -> (r: Ordering)
    ensures
        r == cmp_int(a as int, b as int),
{
    if a < b {
        Ordering::Less
    } else if a > b {
        Ordering::Greater
    } else {
        Ordering::Equal
    }
}

fn reversed(o: Ordering) -> (r: Ordering)
    ensures
        r == flip(o),
{
    match o {
        Ordering::Less => Ordering::Greater,
        Ordering::Equal => Ordering::Equal,
        Ordering::Greater => Ordering::Less,
    }
}

/// Compares two texts code point by code point; a proper prefix comes first.
pub fn compare_text(a: &str, b: &str) -> (r: Ordering)
    ensures
        r == cmp_text(a@, b@),
{
    let la = a.unicode_len();
    let lb = b.unicode_len();
    let mut i: usize = 0;
    assert(a@.skip(0) =~= a@);
    assert(b@.skip(0) =~= b@);
    while i < la && i < lb
        invariant
            la == a@.len(),
            lb == b@.len(),
            i <= la,
            i <= lb,
            cmp_text(a@, b@) == cmp_text(a@.skip(i as int), b@.skip(i as int)),
        decreases la - i,
    {
        let ca = a.get_char(i);
        let cb = b.get_char(i);
        if (ca as u32) != (cb as u32) {
            return order_of_u64(ca as u32 as u64, cb as u32 as u64);
        }
        assert(a@.skip(i as int).drop_first() =~= a@.skip(i as int + 1));
        assert(b@.skip(i as int).drop_first() =~= b@.skip(i as int + 1));
        i = i + 1;
    }
    if i < lb {
        Ordering::Less
    } else if i < la {
        Ordering::Greater
    } else {
        Ordering::Equal
    }
}

/// Compares two texts as the name key does: as they are, or by their
/// lower-case forms.
fn compare_case(a: &str, b: &str, case_sensitive: bool) -> (r: Ordering)
    ensures
        r == cmp_text(case_key(a@, case_sensitive), case_key(b@, case_sensitive)),
{
    if case_sensitive {
        compare_text(a, b)
    } else {
        let la = lowercase(a);
        let lb = lowercase(b);
        compare_text(la.as_str(), lb.as_str())
    }
}

/// Orders two entries by name, by lower-case names unless `case_sensitive`.
pub fn compare_names(a: &FileInfo, b: &FileInfo, case_sensitive: bool) -> (r: Ordering)
    ensures
        r == key_cmp(*a, *b, SortKey::Name, case_sensitive),
{
    compare_case(a.name.as_str(), b.name.as_str(), case_sensitive)
}

/// The extension of a name: the text after its last dot, empty where it has none.
pub fn extension(name: &str) -> (r: &str)
    ensures
        r@ == extension_of(name@),
{
    let n = name.unicode_len();
    let mut i: usize = n;
    while i > 0
        invariant
            n == name@.len(),
            i <= n,
            last_dot(name@, n as int) == last_dot(name@, i as int),
        decreases i,
    {
        if name.get_char(i - 1) == '.' {
            return name.substring_char(i, n);
        }
        i = i - 1;
    }
    proof {
        reveal_strlit("");
    }
    assert(""@ =~= extension_of(name@));
    ""
}

/// Orders two entries by extension, with the same case rule as names.
pub fn compare_extensions(a: &FileInfo, b: &FileInfo, case_sensitive: bool) -> (r: Ordering)
    ensures
        r == key_cmp(*a, *b, SortKey::Extension, case_sensitive),
{
    let ea = extension(a.name.as_str());
    let eb = extension(b.name.as_str());
    proof {
        reveal_strlit("");
    }
    compare_case(ea, eb, case_sensitive)
}

/// Orders two entries by modification time; an unknown time comes first.
pub fn compare_times(a: &FileInfo, b: &FileInfo) -> (r: Ordering)
    ensures
        r == cmp_time(a.modified, b.modified),
{
    match (a.modified, b.modified) {
        (None, None) => Ordering::Equal,
        (None, Some(_)) => Ordering::Less,
        (Some(_), None) => Ordering::Greater,
        (Some(x), Some(y)) => if x.secs != y.secs {
            if x.secs < y.secs {
                Ordering::Less
            } else {
                Ordering::Greater
            }
        } else {
            order_of_u64(x.nanos as u64, y.nanos as u64)
        },
    }
}

/// The position of a kind in the fixed order of kinds.
pub fn get_file_type_rank(k: FileKind) -> (r: u8)
    ensures
        r as int == kind_rank(k),
{
    match k {
        FileKind::Directory => 0,
        FileKind::Symlink => 1,
        FileKind::BlockDevice => 2,
        FileKind::CharDevice => 3,
        FileKind::Fifo => 4,
        FileKind::Socket => 5,
        FileKind::Regular | FileKind::Unknown => 6,
    }
}

/// Orders two entries by kind, in the fixed order of kinds.
pub fn compare_types(a: &FileInfo, b: &FileInfo) -> (r: Ordering)
    ensures
        r == cmp_int(kind_rank(a.kind), kind_rank(b.kind)),
{
    order_of_u64(get_file_type_rank(a.kind) as u64, get_file_type_rank(b.kind) as u64)
}

/// Orders two entries by key, ascending.
pub fn compare_by_key(a: &FileInfo, b: &FileInfo, key: SortKey, case_sensitive: bool) -> (r: Ordering)
    ensures
        r == key_cmp(*a, *b, key, case_sensitive),
{
    match key {
        SortKey::Name => compare_names(a, b, case_sensitive),
        SortKey::Size => order_of_u64(a.size, b.size),
        SortKey::Time => compare_times(a, b),
        SortKey::Extension => compare_extensions(a, b, case_sensitive),
        SortKey::Type => compare_types(a, b),
        SortKey::Owner => order_of_u64(a.uid as u64, b.uid as u64),
        SortKey::Group => order_of_u64(a.gid as u64, b.gid as u64),
        SortKey::Permissions => order_of_u64(a.mode as u64, b.mode as u64),
        SortKey::Inode => order_of_u64(a.inode, b.inode),
        SortKey::Unsorted => Ordering::Equal,
    }
}

/// Orders two entries under the options.
pub fn compare_entries(a: &FileInfo, b: &FileInfo, options: &SortOptions) -> (r: Ordering)
    ensures
        r == entry_cmp(*a, *b, *options),
{
    if options.dirs_first {
        let da = a.is_dir();
        let db = b.is_dir();
        if da && !db {
            return Ordering::Less;
        }
        if !da && db {
            return Ordering::Greater;
        }
    }
    let o = compare_by_key(a, b, options.key, options.case_sensitive);
    if options.reverse {
        reversed(o)
    } else {
        o
    }
}

/// `p` and `q` are permutations of `0..n`, each the inverse of the other.
pub open spec fn inverse_perms(p: Seq<int>, q: Seq<int>, n: int) -> bool {
    &&& p.len() == n
    &&& q.len() == n
    &&& forall|k: int| 0 <= k < n ==> 0 <= #[trigger] p[k] < n && q[p[k]] == k
    &&& forall|v: int| 0 <= v < n ==> 0 <= #[trigger] q[v] < n && p[q[v]] == v
}

/// `r` is `x` rearranged by `p` (the entry at `k` came from `p[k]`), in
/// order under `o`, with entries that compare equal in their order in `x`.
pub open spec fn stable_sorted_by(
    x: Seq<FileInfo>,
    r: Seq<FileInfo>,
    o: SortOptions,
    p: Seq<int>,
    q: Seq<int>,
) -> bool {
    &&& r.len() == x.len()
    &&& inverse_perms(p, q, x.len() as int)
    &&& forall|k: int| 0 <= k < r.len() ==> #[trigger] r[k] == x[p[k]]
    &&& forall|k: int, l: int|
        0 <= k < l < r.len() ==> entry_cmp(#[trigger] r[k], #[trigger] r[l], o)
            != Ordering::Greater
    &&& forall|k: int, l: int|
        0 <= k < l < r.len() && entry_cmp(r[k], r[l], o) == Ordering::Equal ==> #[trigger] p[k]
            < #[trigger] p[l]
}

/// `r` is the stable sort of `x` under `o`.
pub open spec fn is_stable_sort(x: Seq<FileInfo>, r: Seq<FileInfo>, o: SortOptions) -> bool {
    exists|p: Seq<int>, q: Seq<int>| stable_sorted_by(x, r, o, p, q)
}

/// Where the entry at `k` goes when the one at `i` moves down to `j`.
pub open spec fn moved_to(k: int, i: int, j: int) -> int {
    if k == i {
        j
    } else if j <= k < i {
        k + 1
    } else {
        k
    }
}

/// The prefix `0..i` of `r` is in order under `o`, and stable with respect to `p`.
pub open spec fn sorted_prefix(r: Seq<FileInfo>, o: SortOptions, p: Seq<int>, i: int) -> bool {
    &&& forall|k: int, l: int|
        0 <= k < l < i ==> entry_cmp(#[trigger] r[k], #[trigger] r[l], o) != Ordering::Greater
    &&& forall|k: int, l: int|
        0 <= k < l < i && entry_cmp(r[k], r[l], o) == Ordering::Equal ==> #[trigger] p[k]
            < #[trigger] p[l]
}

/// One step of insertion: the entry at `i` moves down to `j`, past the
/// entries that go after it, and the sorted prefix grows by one.
#[verifier::rlimit(60)]
proof fn lemma_insert_step(
    x: Seq<FileInfo>,
    before: Seq<FileInfo>,
    after: Seq<FileInfo>,
    o: SortOptions,
    p: Seq<int>,
    q: Seq<int>,
    i: int,
    j: int,
) -> (res: (Seq<int>, Seq<int>))
    requires
        0 <= j <= i < x.len(),
        before.len() == x.len(),
        inverse_perms(p, q, x.len() as int),
        forall|k: int| 0 <= k < x.len() ==> #[trigger] before[k] == x[p[k]],
        forall|k: int| i <= k < x.len() ==> #[trigger] p[k] == k,
        forall|k: int| 0 <= k < i ==> #[trigger] p[k] < i,
        sorted_prefix(before, o, p, i),
        forall|m: int| j <= m < i ==> entry_cmp(#[trigger] before[m], before[i], o) == Ordering::Greater,
        j > 0 ==> entry_cmp(before[j - 1], before[i], o) != Ordering::Greater,
        after == before.remove(i).insert(j, before[i]),
    ensures
        inverse_perms(res.0, res.1, x.len() as int),
        forall|k: int| 0 <= k < x.len() ==> #[trigger] after[k] == x[res.0[k]],
        forall|k: int| i + 1 <= k < x.len() ==> #[trigger] res.0[k] == k,
        forall|k: int| 0 <= k < i + 1 ==> #[trigger] res.0[k] < i + 1,
        sorted_prefix(after, o, res.0, i + 1),
{
    let n = x.len() as int;
    let e = before[i];
    let np = p.subrange(0, j) + seq![i] + p.subrange(j, i) + p.subrange(i + 1, n);
    let nq = Seq::new(n as nat, |v: int| moved_to(q[v], i, j));
    assert forall|k: int| 0 <= k < n implies #[trigger] np[moved_to(k, i, j)] == p[k]
        && after[moved_to(k, i, j)] == before[k] by {}
    assert forall|k: int| 0 <= k < n implies 0 <= #[trigger] np[k] < n && nq[np[k]] == k
        && after[k] == x[np[k]] by {
        if k < j {
            assert(np[moved_to(k, i, j)] == p[k]);
        } else if k == j {
            assert(np[moved_to(i, i, j)] == p[i]);
        } else if k <= i {
            assert(np[moved_to(k - 1, i, j)] == p[k - 1]);
        } else {
            assert(np[moved_to(k, i, j)] == p[k]);
        }
    }
    assert forall|v: int| 0 <= v < n implies 0 <= #[trigger] nq[v] < n && np[nq[v]] == v by {
        assert(np[moved_to(q[v], i, j)] == p[q[v]]);
    }
    assert forall|k: int| 0 <= k < i + 1 implies #[trigger] np[k] < i + 1 by {
        if k < j {
            assert(np[moved_to(k, i, j)] == p[k]);
        } else if k == j {
            assert(np[moved_to(i, i, j)] == p[i]);
        } else {
            assert(np[moved_to(k - 1, i, j)] == p[k - 1]);
        }
    }
    assert forall|k: int| i + 1 <= k < n implies #[trigger] np[k] == k by {
        assert(np[moved_to(k, i, j)] == p[k]);
    }
    assert forall|k: int, l: int| 0 <= k < l < i + 1 implies entry_cmp(
        #[trigger] after[k],
        #[trigger] after[l],
        o,
    ) != Ordering::Greater && (entry_cmp(after[k], after[l], o) == Ordering::Equal ==> np[k]
        < np[l]) by {
        let ok = if k < j {
            k
        } else {
            k - 1
        };
        let ol = if l <= j {
            l
        } else {
            l - 1
        };
        if k == j {
            assert(np[moved_to(ol, i, j)] == p[ol]);
            assert(after[l] == before[ol]);
            lemma_entry_cmp_flip(before[ol], e, o);
        } else if l == j {
            assert(np[moved_to(ok, i, j)] == p[ok]);
            assert(after[k] == before[ok]);
            assert(np[j] == i);
            if ok < j - 1 {
                assert(entry_cmp(before[ok], before[j - 1], o) != Ordering::Greater);
                lemma_entry_cmp_trans(before[ok], before[j - 1], e, o);
            }
        } else {
            assert(np[moved_to(ok, i, j)] == p[ok]);
            assert(np[moved_to(ol, i, j)] == p[ol]);
            assert(after[k] == before[ok]);
            assert(after[l] == before[ol]);
        }
    }
    (np, nq)
}

fn goes_after(a: &FileInfo, b: &FileInfo, options: &SortOptions) -> (r: bool)
    ensures
        r == (entry_cmp(*a, *b, *options) == Ordering::Greater),
{
    match compare_entries(a, b, options) {
        Ordering::Greater => true,
        _ => false,
    }
}

/// Sorts the entries in place, stably, by the order that `options` gives.
pub fn sort_entries(entries: &mut Vec<FileInfo>, options: &SortOptions)
    ensures
        is_stable_sort(old(entries)@, final(entries)@, *options),
{
    let ghost x = entries@;
    let n = entries.len();
    let ghost mut p: Seq<int> = Seq::new(n as nat, |k: int| k);
    let ghost mut q: Seq<int> = Seq::new(n as nat, |k: int| k);
    let mut i: usize = 0;
    while i < n
        invariant
            n == x.len(),
            i <= n,
            entries@.len() == n,
            inverse_perms(p, q, n as int),
            forall|k: int| 0 <= k < n ==> #[trigger] entries@[k] == x[p[k]],
            forall|k: int| i <= k < n ==> #[trigger] p[k] == k,
            forall|k: int| 0 <= k < i ==> #[trigger] p[k] < i,
            sorted_prefix(entries@, *options, p, i as int),
        decreases n - i,
    {
        let ghost before = entries@;
        let e = entries.remove(i);
        assert(e == before[i as int]);
        let mut j: usize = i;
        while j > 0 && goes_after(&entries[j - 1], &e, options)
            invariant
                j <= i,
                i < n,
                before.len() == n,
                entries@ == before.remove(i as int),
                forall|m: int|
                    j <= m < i ==> entry_cmp(#[trigger] before[m], e, *options)
                        == Ordering::Greater,
            decreases j,
        {
            j = j - 1;
        }
        entries.insert(j, e);
        proof {
            let (np, nq) = lemma_insert_step(x, before, entries@, *options, p, q, i as int, j as int);
            p = np;
            q = nq;
        }
        i = i + 1;
    }
    assert(stable_sorted_by(x, entries@, *options, p, q));
}

/// The options with `reverse` toggled.
pub open spec fn toggled(o: SortOptions) -> SortOptions {
    SortOptions { reverse: !o.reverse, ..o }
}

proof fn lemma_agree_upto(
    x: Seq<FileInfo>,
    r1: Seq<FileInfo>,
    r2: Seq<FileInfo>,
    o: SortOptions,
    pa: Seq<int>,
    qa: Seq<int>,
    pb: Seq<int>,
    qb: Seq<int>,
    k: int,
)
    requires
        stable_sorted_by(x, r1, o, pa, qa),
        stable_sorted_by(x, r2, o, pb, qb),
        0 <= k <= x.len(),
    ensures
        forall|i: int| 0 <= i < k ==> pa[i] == pb[i],
    decreases k,
{
    if k > 0 {
        lemma_agree_upto(x, r1, r2, o, pa, qa, pb, qb, k - 1);
        let m = k - 1;
        let a = pa[m];
        let b = pb[m];
        if a != b {
            let ka = qa[b];
            let kb = qb[a];
            assert(pa[ka] == b);
            assert(pb[kb] == a);
            if kb < m {
                assert(pa[kb] == pb[kb]);
                assert(qa[pa[kb]] == kb);
                assert(qa[pa[m]] == m);
            }
            if ka < m {
                assert(pa[ka] == pb[ka]);
                assert(qb[pb[ka]] == ka);
                assert(qb[pb[m]] == m);
            }
            assert(r1[m] == x[a]);
            assert(r1[ka] == x[b]);
            assert(r2[m] == x[b]);
            assert(r2[kb] == x[a]);
            assert(entry_cmp(r1[m], r1[ka], o) != Ordering::Greater);
            assert(entry_cmp(r2[m], r2[kb], o) != Ordering::Greater);
            lemma_entry_cmp_flip(x[a], x[b], o);
            assert(pa[m] < pa[ka]);
            assert(pb[m] < pb[kb]);
        }
    }
}

/// A stable sort has exactly one outcome: two stable sorts of one sequence
/// under the same options are equal.
pub proof fn lemma_stable_sort_unique(
    x: Seq<FileInfo>,
    r1: Seq<FileInfo>,
    r2: Seq<FileInfo>,
    o: SortOptions,
)
    requires
        is_stable_sort(x, r1, o),
        is_stable_sort(x, r2, o),
    ensures
        r1 == r2,
{
    let (pa, qa) = choose|p: Seq<int>, q: Seq<int>| stable_sorted_by(x, r1, o, p, q);
    let (pb, qb) = choose|p: Seq<int>, q: Seq<int>| stable_sorted_by(x, r2, o, p, q);
    lemma_agree_upto(x, r1, r2, o, pa, qa, pb, qb, x.len() as int);
    assert forall|i: int| 0 <= i < r1.len() implies r1[i] == r2[i] by {
        assert(r1[i] == x[pa[i]]);
        assert(r2[i] == x[pb[i]]);
    }
    assert(r1 =~= r2);
}

/// A sequence already in order under `o` is its own stable sort.
pub proof fn lemma_sorted_is_own_sort(s: Seq<FileInfo>, o: SortOptions)
    requires
        forall|k: int, l: int|
            0 <= k < l < s.len() ==> entry_cmp(#[trigger] s[k], #[trigger] s[l], o)
                != Ordering::Greater,
    ensures
        is_stable_sort(s, s, o),
{
    let id = Seq::new(s.len(), |k: int| k);
    assert(stable_sorted_by(s, s, o, id, id));
}

/// With no key and no directory grouping, sorting keeps the input order.
pub proof fn lemma_unsorted_keeps_order(x: Seq<FileInfo>, r: Seq<FileInfo>, o: SortOptions)
    requires
        o.key == SortKey::Unsorted,
        !o.dirs_first,
        is_stable_sort(x, r, o),
    ensures
        r == x,
{
    lemma_sorted_is_own_sort(x, o);
    lemma_stable_sort_unique(x, r, x, o);
}

/// With `dirs_first`, every directory comes before every other entry, under
/// any key and with or without `reverse`.
pub proof fn lemma_dirs_first(x: Seq<FileInfo>, r: Seq<FileInfo>, o: SortOptions)
    requires
        o.dirs_first,
        is_stable_sort(x, r, o),
    ensures
        forall|k: int, l: int|
            0 <= k < l < r.len() && is_directory(#[trigger] r[l]) ==> is_directory(
                #[trigger] r[k],
            ),
{
    let (p, q) = choose|p: Seq<int>, q: Seq<int>| stable_sorted_by(x, r, o, p, q);
    assert forall|k: int, l: int|
        0 <= k < l < r.len() && is_directory(#[trigger] r[l]) implies is_directory(
        #[trigger] r[k],
    ) by {
        assert(entry_cmp(r[k], r[l], o) != Ordering::Greater);
    }
}

/// Sorting `x` under the toggled options and the result again under `o`
/// gives what sorting `x` under `o` gives.
pub proof fn lemma_sort_after_toggled_sort(
    x: Seq<FileInfo>,
    y: Seq<FileInfo>,
    z: Seq<FileInfo>,
    o: SortOptions,
)
    requires
        is_stable_sort(x, y, toggled(o)),
        is_stable_sort(y, z, o),
    ensures
        is_stable_sort(x, z, o),
{
    let (pa, qa) = choose|p: Seq<int>, q: Seq<int>| stable_sorted_by(x, y, toggled(o), p, q);
    let (pb, qb) = choose|p: Seq<int>, q: Seq<int>| stable_sorted_by(y, z, o, p, q);
    let n = x.len() as int;
    let pc = Seq::new(n as nat, |k: int| pa[pb[k]]);
    let qc = Seq::new(n as nat, |v: int| qb[qa[v]]);
    assert forall|k: int| 0 <= k < n implies 0 <= #[trigger] pc[k] < n && qc[pc[k]] == k
        && z[k] == x[pc[k]] by {
        assert(0 <= pb[k] < n);
        assert(z[k] == y[pb[k]]);
        assert(y[pb[k]] == x[pa[pb[k]]]);
    }
    assert forall|v: int| 0 <= v < n implies 0 <= #[trigger] qc[v] < n && pc[qc[v]] == v by {
        assert(0 <= qa[v] < n);
    }
    assert forall|k: int, l: int|
        0 <= k < l < z.len() && entry_cmp(z[k], z[l], o) == Ordering::Equal implies #[trigger] pc[k]
        < #[trigger] pc[l] by {
        let a = pb[k];
        let b = pb[l];
        assert(a < b);
        assert(z[k] == y[a]);
        assert(z[l] == y[b]);
        lemma_key_cmp_flip(y[a], y[b], o.key, o.case_sensitive);
        assert(entry_cmp(y[a], y[b], toggled(o)) == Ordering::Equal);
        assert(pa[a] < pa[b]);
    }
    assert(stable_sorted_by(x, z, o, pc, qc));
}

/// Reversing and reversing back restores a sorted listing: sorting it with
/// `reverse` toggled and then with the original options gives it back.
pub proof fn lemma_reverse_twice(
    x: Seq<FileInfo>,
    s: Seq<FileInfo>,
    t: Seq<FileInfo>,
    u: Seq<FileInfo>,
    o: SortOptions,
)
    requires
        is_stable_sort(x, s, o),
        is_stable_sort(s, t, toggled(o)),
        is_stable_sort(t, u, o),
    ensures
        u == s,
{
    lemma_sorted_is_own_sort(s, o);
    lemma_sort_after_toggled_sort(s, t, u, o);
    lemma_stable_sort_unique(s, u, s, o);
}

} // verus!
