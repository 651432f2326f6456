use crate::display::{display_entries, grid_text, long_listing, name_widths, DisplayConfig, Listing};
use crate::entry::FileInfo;
use crate::filtering::{is_hidden, starts_with_dot};
use crate::sorting::{is_stable_sort, sort_entries, SortOptions};
use vstd::prelude::*;

verus! {

/// Whether a directory read keeps an entry: every entry with `all`, else
/// those whose names do not start with a dot.
pub open spec fn shown(all: bool) -> spec_fn(FileInfo) -> bool {
    |e: FileInfo| all || !is_hidden(e.name@)
}

/// The entries of a directory read that a listing shows, in their order.
pub fn collect_entries(entries: Vec<FileInfo>, all: bool) -> (r: Vec<FileInfo>)
    ensures
        r@ == entries@.filter(shown(all)),
{
    let ghost orig = entries@;
    let n = entries.len();
    let mut rest = entries;
    let mut kept: Vec<FileInfo> = Vec::new();
    let mut i: usize = 0;
    assert(orig.subrange(0, 0).filter(shown(all)) =~= Seq::<FileInfo>::empty()) by {
        reveal(Seq::filter);
    }
    while i < n
        invariant
            n == orig.len(),
            i <= n,
            rest@ == orig.subrange(i as int, n as int),
            kept@ == orig.subrange(0, i as int).filter(shown(all)),
        decreases n - i,
    {
        let e = rest.remove(0);
        assert(orig.subrange(0, i + 1).drop_last() =~= orig.subrange(0, i as int));
        assert(e == orig[i as int]);
        let keep = all || !starts_with_dot(e.name.as_str());
        proof {
            let s1 = orig.subrange(0, i + 1);
            assert(s1.last() == e);
            assert(shown(all)(e) == keep);
            reveal(Seq::filter);
            assert(s1.filter(shown(all)) == (if keep {
                orig.subrange(0, i as int).filter(shown(all)).push(e)
            } else {
                orig.subrange(0, i as int).filter(shown(all))
            }));
        }
        if keep {
            kept.push(e);
        }
        assert(rest@ =~= orig.subrange(i + 1, n as int));
        i = i + 1;
    }
    assert(orig.subrange(0, n as int) =~= orig);
    kept
}

/// The entries a listing shows, in the order it shows them.
pub fn prepare_entries(entries: Vec<FileInfo>, all: bool, options: &SortOptions) -> (r: Vec<FileInfo>)
    ensures
        is_stable_sort(entries@.filter(shown(all)), r@, *options),
{
    let mut shown_entries = collect_entries(entries, all);
    sort_entries(&mut shown_entries, options);
    shown_entries
}

/// Lists the entries of one directory read: leaves out hidden ones unless
/// `all`, sorts, and renders as configured.
pub fn list_directory(
    entries: Vec<FileInfo>,
    all: bool,
    options: &SortOptions,
    config: &DisplayConfig,
) -> (r: Listing)
    ensures
        !config.use_long_format ==> r.error is None && exists|s: Seq<FileInfo>|
            is_stable_sort(entries@.filter(shown(all)), s, *options) && r.text@ == grid_text(
                s,
                name_widths(s),
                config.color_enabled,
                config.term_width as nat,
            ),
        config.use_long_format ==> exists|s: Seq<FileInfo>|
            is_stable_sort(entries@.filter(shown(all)), s, *options) && long_listing(*config, s, r),
{
    let shown_entries = prepare_entries(entries, all, options);
    display_entries(&shown_entries, config)
}

} // verus!
