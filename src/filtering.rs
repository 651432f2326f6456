use crate::entry::{FileInfo, FileKind};
use vstd::prelude::*;

verus! {

/// Which entries a listing keeps.
#[derive(Debug, Clone)]
pub struct FilterOptions {
    pub show_hidden: bool,
    /// A shell-style pattern (`*.rs`) that names must match.
    pub pattern: Option<String>,
    /// A regular expression that names must match somewhere.
    pub regex: Option<String>,
    pub min_size: Option<u64>,
    pub max_size: Option<u64>,
    pub file_types: FileTypes,
}

/// The kinds of entries a listing keeps.
#[derive(Debug, Clone, Copy, PartialEq, Eq, Structural)]
pub struct FileTypes {
    pub files: bool,
    pub dirs: bool,
    pub symlinks: bool,
    pub sockets: bool,
    pub pipes: bool,
    pub devices: bool,
}

impl Default for FileTypes {
    /// No kind at all.
    fn default() -> (r: Self)
        ensures
            r == (FileTypes {
                files: false,
                dirs: false,
                symlinks: false,
                sockets: false,
                pipes: false,
                devices: false,
            }),
    {
        FileTypes {
            files: false,
            dirs: false,
            symlinks: false,
            sockets: false,
            pipes: false,
            devices: false,
        }
    }
}

impl FileTypes {
    /// Every kind.
    pub fn all() -> (r: Self)
        ensures
            r == (FileTypes {
                files: true,
                dirs: true,
                symlinks: true,
                sockets: true,
                pipes: true,
                devices: true,
            }),
    {
        FileTypes { files: true, dirs: true, symlinks: true, sockets: true, pipes: true, devices: true }
    }
}

impl Default for FilterOptions {
    /// Hidden entries and every kind left out, no other condition.
    fn default() -> (r: Self)
        ensures
            !r.show_hidden,
            r.pattern is None,
            r.regex is None,
            r.min_size is None,
            r.max_size is None,
            r.file_types == (FileTypes {
                files: false,
                dirs: false,
                symlinks: false,
                sockets: false,
                pipes: false,
                devices: false,
            }),
    {
        FilterOptions {
            show_hidden: false,
            pattern: None,
            regex: None,
            min_size: None,
            max_size: None,
            file_types: FileTypes::default(),
        }
    }
}

/// Whether a name matches a shell-style pattern, as the `glob` crate decides;
/// a pattern that does not compile matches nothing.
pub uninterp spec fn glob_match(pattern: Seq<char>, name: Seq<char>) -> bool;

/// Whether a regular expression matches somewhere in a text, as the `regex`
/// crate decides; an expression that does not compile matches nothing.
pub uninterp spec fn regex_match(expr: Seq<char>, text: Seq<char>) -> bool;

/// Relies on `glob::Pattern::new` and `Pattern::matches`: the answer
/// depends on the pattern and the name alone.
#[verifier::external_body]
fn pattern_match(name: &str, pattern: &str) -> (r: bool)
    ensures
        r == glob_match(pattern@, name@),
{
    match glob::Pattern::new(pattern) {
        Ok(p) => p.matches(name),
        Err(_) => false,
    }
}

/// Relies on `regex::Regex::new` and `Regex::is_match`: the answer depends
/// on the expression and the text alone.
#[verifier::external_body]
fn regex_is_match(expr: &str, text: &str) -> (r: bool)
    ensures
        r == regex_match(expr@, text@),
{
    match regex::Regex::new(expr) {
        Ok(re) => re.is_match(text),
        Err(_) => false,
    }
}

/// A name that starts with a dot.
pub open spec fn is_hidden(name: Seq<char>) -> bool {
    name.len() > 0 && name[0] == '.'
}

/// Whether the kind of an entry is among the chosen ones; an unknown kind never is.
pub open spec fn type_selected(k: FileKind, t: FileTypes) -> bool {
    match k {
        FileKind::Regular => t.files,
        FileKind::Directory => t.dirs,
        FileKind::Symlink => t.symlinks,
        FileKind::Socket => t.sockets,
        FileKind::Fifo => t.pipes,
        FileKind::BlockDevice | FileKind::CharDevice => t.devices,
        FileKind::Unknown => false,
    }
}

/// Every condition but the pattern and the expression.
pub open spec fn plain_conditions(e: FileInfo, o: FilterOptions) -> bool {
    &&& o.show_hidden || !is_hidden(e.name@)
    &&& type_selected(e.kind, o.file_types)
    &&& (o.min_size matches Some(m) ==> e.size >= m)
    &&& (o.max_size matches Some(m) ==> e.size <= m)
}

/// Whether the options keep an entry.
pub open spec fn included(e: FileInfo, o: FilterOptions) -> bool {
    &&& plain_conditions(e, o)
    &&& (o.pattern matches Some(p) ==> glob_match(p@, e.name@))
    &&& (o.regex matches Some(x) ==> regex_match(x@, e.name@))
}

/// The options' test as a predicate on entries.
pub open spec fn keeps(o: FilterOptions) -> spec_fn(FileInfo) -> bool {
    |e: FileInfo| included(e, o)
}

pub fn starts_with_dot(name: &str) -> (r: bool)
    ensures
        r == is_hidden(name@),
{
    name.unicode_len() > 0 && name.get_char(0) == '.'
}

/// Whether the entry's kind is among the chosen ones.
pub fn matches_file_type(entry: &FileInfo, types: &FileTypes) -> (r: bool)
    ensures
        r == type_selected(entry.kind, *types),
{
    match entry.kind {
        FileKind::Regular => types.files,
        FileKind::Directory => types.dirs,
        FileKind::Symlink => types.symlinks,
        FileKind::Socket => types.sockets,
        FileKind::Fifo => types.pipes,
        FileKind::BlockDevice | FileKind::CharDevice => types.devices,
        FileKind::Unknown => false,
    }
}

/// Whether the options keep an entry, given whether its name matched the
/// pattern and the expression (each read only where the options have one).
pub fn include_with(entry: &FileInfo, options: &FilterOptions, pattern_ok: bool, regex_ok: bool) -> (r: bool)
    ensures
        r == (plain_conditions(*entry, *options) && (options.pattern is Some ==> pattern_ok) && (
        options.regex is Some ==> regex_ok)),
{
    if !options.show_hidden && starts_with_dot(entry.name.as_str()) {
        return false;
    }
    if !matches_file_type(entry, &options.file_types) {
        return false;
    }
    match options.min_size {
        Some(m) => if entry.size < m {
            return false;
        },
        None => {},
    }
    match options.max_size {
        Some(m) => if entry.size > m {
            return false;
        },
        None => {},
    }
    if options.pattern.is_some() && !pattern_ok {
        return false;
    }
    if options.regex.is_some() && !regex_ok {
        return false;
    }
    true
}

/// Whether the options keep an entry.
pub fn should_include_entry(entry: &FileInfo, options: &FilterOptions) -> (r: bool)
    ensures
        r == included(*entry, *options),
{
    let pattern_ok = match &options.pattern {
        Some(p) => pattern_match(entry.name.as_str(), p.as_str()),
        None => true,
    };
    let regex_ok = match &options.regex {
        Some(x) => regex_is_match(x.as_str(), entry.name.as_str()),
        None => true,
    };
    include_with(entry, options, pattern_ok, regex_ok)
}

/// The entries that the options keep, in their order.
pub fn filter_entries(entries: Vec<FileInfo>, options: &FilterOptions) -> (r: Vec<FileInfo>)
    ensures
        r@ == entries@.filter(keeps(*options)),
{
    let ghost orig = entries@;
    let n = entries.len();
    let mut rest = entries;
    let mut kept: Vec<FileInfo> = Vec::new();
    let mut i: usize = 0;
    assert(orig.subrange(0, 0).filter(keeps(*options)) =~= Seq::<FileInfo>::empty()) by {
        reveal(Seq::filter);
    }
    while i < n
        invariant
            n == orig.len(),
            i <= n,
            rest@ == orig.subrange(i as int, n as int),
            kept@ == orig.subrange(0, i as int).filter(keeps(*options)),
        decreases n - i,
    {
        let e = rest.remove(0);
        assert(orig.subrange(0, i + 1).drop_last() =~= orig.subrange(0, i as int));
        assert(e == orig[i as int]);
        let keep = should_include_entry(&e, options);
        proof {
            let s1 = orig.subrange(0, i + 1);
            assert(s1.last() == e);
            assert(keeps(*options)(e) == keep);
            reveal(Seq::filter);
            assert(s1.filter(keeps(*options)) == (if keep {
                orig.subrange(0, i as int).filter(keeps(*options)).push(e)
            } else {
                orig.subrange(0, i as int).filter(keeps(*options))
            }));
        }
        if keep {
            kept.push(e);
        }
        assert(rest@ =~= orig.subrange(i + 1, n as int));
        i = i + 1;
    }
    assert(orig.subrange(0, n as int) =~= orig);
    kept
}

} // verus!
