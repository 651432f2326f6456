use crate::entry::{FileInfo, FileKind, Timestamp};
use crate::formatting::{humanize, humanized, UnitStyle};
use crate::permissions::{get_mode_string, mode_string};
use crate::selinux::{label_of, label_width, shown_contexts, SELinuxContext, SELinuxHandler};
use crate::text::{
    decimal, decimal_string, pad_left, pad_right, push_decimal, push_padded_left,
    push_padded_right, push_spaces, spaces,
};
use unicode_width::UnicodeWidthStr;
use vstd::prelude::*;
use vstd::string::StringExecFns;

verus! {

/// How a listing is rendered.
#[derive(Debug, Clone, Copy)]
pub struct DisplayConfig {
    /// Columns available to the grid.
    pub term_width: usize,
    pub color_enabled: bool,
    pub use_long_format: bool,
    pub human_readable: bool,
    /// Present when security contexts are shown.
    pub selinux_handler: Option<SELinuxHandler>,
}

/// The columns that a text takes on a terminal, as `unicode-width` counts them.
pub uninterp spec fn display_width(s: Seq<char>) -> nat;

/// Relies on `UnicodeWidthStr::width` from `unicode-width`: the displayed
/// width of a text, which depends on its characters alone (none for none).
#[verifier::external_body]
fn text_width(s: &str) -> (r: usize)
    ensures
        r == display_width(s@),
        s@.len() == 0 ==> r == 0,
{
    s.width()
}

/// Relies on `term_size::dimensions`: the (columns, rows) of the terminal on
/// standard output, standard input or standard error, when one is there;
/// neither is ever zero.
#[verifier::external_body]
fn terminal_dimensions() -> (r: Option<(usize, usize)>)
    ensures
        r matches Some(d) ==> d.0 > 0 && d.1 > 0,
{
    term_size::dimensions()
}

/// The terminal's width, or 80 where no terminal reports one.
pub fn terminal_width_from(dimensions: Option<(usize, usize)>) -> (r: usize)
    ensures
        r == match dimensions {
            Some(d) => d.0,
            None => 80,
        },
{
    match dimensions {
        Some(d) => d.0,
        None => 80,
    }
}

/// The width of the terminal on standard output, or 80.
pub fn get_terminal_width() -> (r: usize)
    ensures
        r > 0,
{
    terminal_width_from(terminal_dimensions())
}

impl Default for DisplayConfig {
    fn default() -> (r: Self)
        ensures
            r.term_width > 0,
            r.color_enabled,
            !r.use_long_format,
            !r.human_readable,
            r.selinux_handler.is_none(),
    {
        DisplayConfig {
            term_width: get_terminal_width(),
            color_enabled: true,
            use_long_format: false,
            human_readable: false,
            selinux_handler: None,
        }
    }
}

impl DisplayConfig {
    pub fn with_selinux(self, selinux_handler: Option<SELinuxHandler>) -> (r: Self)
        ensures
            r.selinux_handler == selinux_handler,
            r.term_width == self.term_width,
            r.color_enabled == self.color_enabled,
            r.use_long_format == self.use_long_format,
            r.human_readable == self.human_readable,
    {
        DisplayConfig { selinux_handler, ..self }
    }
}

/// The color escape that starts an entry's name: blue for directories, green
/// for regular files with an execute bit, the reset code for anything else.
pub open spec fn entry_color(e: FileInfo) -> Seq<char> {
    if e.kind == FileKind::Directory {
        "\x1b[34m"@
    } else if e.kind == FileKind::Regular && e.mode & 0o111 != 0 {
        "\x1b[32m"@
    } else {
        "\x1b[0m"@
    }
}

/// An entry's name, wrapped in its color and the reset code when coloring.
pub open spec fn colored_name(e: FileInfo, color: bool) -> Seq<char> {
    if color {
        entry_color(e) + e.name@ + "\x1b[0m"@
    } else {
        e.name@
    }
}

/// Returns the color escape of an entry.
pub fn get_entry_color(e: &FileInfo) -> (r: &'static str)
    ensures
        r@ == entry_color(*e),
{
    if e.is_dir() {
        "\x1b[34m"
    } else if e.kind == FileKind::Regular && e.mode & 0o111 != 0 {
        "\x1b[32m"
    } else {
        "\x1b[0m"
    }
}

fn push_name(s: &mut String, e: &FileInfo, color: bool)
    ensures
        final(s)@ == old(s)@ + colored_name(*e, color),
{
    if color {
        s.append(get_entry_color(e));
        s.append(e.name.as_str());
        s.append("\x1b[0m");
    } else {
        s.append(e.name.as_str());
    }
    assert(final(s)@ =~= old(s)@ + colored_name(*e, color));
}

// ---- grid ----

/// The largest of the widths, 0 for none.
pub open spec fn max_width(ws: Seq<usize>) -> nat
    decreases ws.len(),
{
    if ws.len() == 0 {
        0
    } else if ws.last() as nat > max_width(ws.drop_last()) {
        ws.last() as nat
    } else {
        max_width(ws.drop_last())
    }
}

/// The number of grid columns: as many cells of `max + 2` as fit, at least one.
pub open spec fn grid_columns(maxw: nat, term_width: nat) -> nat {
    if term_width / (maxw + 2) >= 1 {
        term_width / (maxw + 2)
    } else {
        1
    }
}

/// The number of grid rows that `n` entries in `cols` columns take.
pub open spec fn grid_rows(n: nat, cols: nat) -> nat {
    if n % cols == 0 {
        n / cols
    } else {
        n / cols + 1
    }
}

/// The index of the entry at a grid position: entries fill the grid column
/// by column.
pub open spec fn cell_index(row: nat, col: nat, rows: nat) -> nat {
    col * rows + row
}

/// The text of one cell: the name, padded to the column width unless it is
/// the last populated cell of its row; nothing where no entry falls.
pub open spec fn cell_text(
    es: Seq<FileInfo>,
    ws: Seq<usize>,
    color: bool,
    cols: nat,
    rows: nat,
    row: nat,
    col: nat,
) -> Seq<char> {
    let i = cell_index(row, col, rows);
    if i >= es.len() {
        Seq::empty()
    } else if col + 1 >= cols || cell_index(row, col + 1, rows) >= es.len() {
        colored_name(es[i as int], color)
    } else {
        colored_name(es[i as int], color) + spaces((max_width(ws) + 2 - ws[i as int]) as nat)
    }
}

/// The cells of columns `0..c` of a row.
pub open spec fn row_text(
    es: Seq<FileInfo>,
    ws: Seq<usize>,
    color: bool,
    cols: nat,
    rows: nat,
    row: nat,
    c: nat,
) -> Seq<char>
    decreases c,
{
    if c == 0 {
        Seq::empty()
    } else {
        row_text(es, ws, color, cols, rows, row, (c - 1) as nat) + cell_text(
            es,
            ws,
            color,
            cols,
            rows,
            row,
            (c - 1) as nat,
        )
    }
}

/// Rows `0..r` of the grid, each ended by a newline.
pub open spec fn grid_text_upto(
    es: Seq<FileInfo>,
    ws: Seq<usize>,
    color: bool,
    cols: nat,
    rows: nat,
    r: nat,
) -> Seq<char>
    decreases r,
{
    if r == 0 {
        Seq::empty()
    } else {
        grid_text_upto(es, ws, color, cols, rows, (r - 1) as nat) + row_text(
            es,
            ws,
            color,
            cols,
            rows,
            (r - 1) as nat,
            cols,
        ) + "\n"@
    }
}

/// The grid of entries whose names are `ws` columns wide, for a terminal of
/// `term_width` columns.
pub open spec fn grid_text(es: Seq<FileInfo>, ws: Seq<usize>, color: bool, term_width: nat) -> Seq<
    char,
> {
    let cols = grid_columns(max_width(ws), term_width);
    let rows = grid_rows(es.len(), cols);
    grid_text_upto(es, ws, color, cols, rows, rows)
}

/// The shape of the grid for `n` names at most `max_name_width` wide:
/// (columns, rows).
pub fn grid_shape(n: usize, max_name_width: usize, term_width: usize) -> (r: (usize, usize))
    ensures
        r.0 == grid_columns(max_name_width as nat, term_width as nat),
        r.1 == grid_rows(n as nat, r.0 as nat),
{
    let cw: u128 = max_name_width as u128 + 2;
    let fit: u128 = term_width as u128 / cw;
    let cols: usize = if fit >= 1 {
        fit as usize
    } else {
        1
    };
    let rows: usize = if n % cols == 0 {
        n / cols
    } else {
        assert(cols >= 2);
        assert(n != 0) by {
            if n == 0 {
                assert(0int % (cols as int) == 0) by (nonlinear_arith)
                    requires
                        cols >= 2,
                ;
            }
        }
        assert(n / cols < n) by (nonlinear_arith)
            requires
                cols >= 2,
                n > 0,
        ;
        n / cols + 1
    };
    (cols, rows)
}

proof fn lemma_row_text_rest(
    es: Seq<FileInfo>,
    ws: Seq<usize>,
    color: bool,
    cols: nat,
    rows: nat,
    row: nat,
    c0: nat,
    c: nat,
)
    requires
        c0 <= c,
        cell_index(row, c0, rows) >= es.len(),
    ensures
        row_text(es, ws, color, cols, rows, row, c) == row_text(es, ws, color, cols, rows, row, c0),
    decreases c - c0,
{
    if c > c0 {
        lemma_row_text_rest(es, ws, color, cols, rows, row, c0, (c - 1) as nat);
        let k = (c - 1) as nat;
        assert(k * rows >= c0 * rows) by (nonlinear_arith)
            requires
                k >= c0,
        ;
        assert(cell_text(es, ws, color, cols, rows, row, k) =~= Seq::empty());
        assert(row_text(es, ws, color, cols, rows, row, c) =~= row_text(
            es,
            ws,
            color,
            cols,
            rows,
            row,
            k,
        ));
    }
}

/// Lays entries out in a grid for a terminal `term_width` columns wide, given
/// the displayed width of each name: column by column, each column as wide as
/// the widest name plus two.
pub fn grid_text_of(entries: &Vec<FileInfo>, widths: &Vec<usize>, color: bool, term_width: usize) -> (r: String)
    requires
        widths@.len() == entries@.len(),
    ensures
        r@ == grid_text(entries@, widths@, color, term_width as nat),
{
    let n = entries.len();
    let mut maxw: usize = 0;
    let mut i: usize = 0;
    while i < n
        invariant
            n == widths@.len(),
            i <= n,
            maxw == max_width(widths@.subrange(0, i as int)),
            forall|k: int| 0 <= k < i ==> widths@[k] <= maxw,
        decreases n - i,
    {
        assert(widths@.subrange(0, i + 1).drop_last() =~= widths@.subrange(0, i as int));
        if widths[i] > maxw {
            maxw = widths[i];
        }
        i = i + 1;
    }
    assert(widths@.subrange(0, n as int) =~= widths@);
    let (cols, rows) = grid_shape(n, maxw, term_width);
    let ghost es = entries@;
    let ghost ws = widths@;
    let mut s = String::new();
    let mut row: usize = 0;
    while row < rows
        invariant
            n == es.len(),
            es == entries@,
            ws == widths@,
            ws.len() == n,
            maxw == max_width(ws),
            forall|k: int| 0 <= k < n ==> ws[k] <= maxw,
            cols == grid_columns(maxw as nat, term_width as nat),
            rows == grid_rows(n as nat, cols as nat),
            cols >= 1,
            row <= rows,
            s@ == grid_text_upto(es, ws, color, cols as nat, rows as nat, row as nat),
        decreases rows - row,
    {
        let ghost start = s@;
        let mut col: usize = 0;
        let mut more: bool = row < n;
        while more
            invariant
                n == es.len(),
                es == entries@,
                ws == widths@,
                ws.len() == n,
                maxw == max_width(ws),
                forall|k: int| 0 <= k < n ==> ws[k] <= maxw,
                cols >= 1,
                row < rows,
                col <= cols,
                more ==> col < cols && col * rows + row < n,
                !more ==> col >= cols || col * rows + row >= n,
                s@ == start + row_text(es, ws, color, cols as nat, rows as nat, row as nat, col as nat),
            decreases cols - col,
        {
            let idx: usize = col * rows + row;
            let e = &entries[idx];
            push_name(&mut s, e, color);
            proof {
                let c = col as int + 1;
                let r = rows as int;
                assert(c * r + row <= 340282366920938463463374607431768211455) by (nonlinear_arith)
                    requires
                        0 <= c <= 18446744073709551616,
                        0 <= r <= 18446744073709551615,
                        0 <= row <= 18446744073709551615,
                ;
            }
            let next: u128 = (col as u128 + 1) * (rows as u128) + (row as u128);
            let last = col + 1 >= cols || next >= n as u128;
            if !last {
                push_spaces(&mut s, maxw - widths[idx]);
                push_spaces(&mut s, 2);
                assert(spaces((maxw - ws[idx as int]) as nat) + spaces(2) =~= spaces(
                    (max_width(ws) + 2 - ws[idx as int]) as nat,
                ));
            }
            proof {
                assert(cell_index(row as nat, col as nat, rows as nat) == idx);
                assert(cell_index(row as nat, (col + 1) as nat, rows as nat) == (col as int + 1)
                    * rows + row) by (nonlinear_arith);
            }
            col = col + 1;
            more = !last;
            proof {
                assert(s@ =~= start + row_text(
                    es,
                    ws,
                    color,
                    cols as nat,
                    rows as nat,
                    row as nat,
                    col as nat,
                ));
            }
        }
        proof {
            if col < cols {
                lemma_row_text_rest(
                    es,
                    ws,
                    color,
                    cols as nat,
                    rows as nat,
                    row as nat,
                    col as nat,
                    cols as nat,
                );
            }
        }
        s.append("\n");
        row = row + 1;
    }
    s
}

/// The displayed width of each entry's name.
pub open spec fn name_widths(es: Seq<FileInfo>) -> Seq<usize> {
    Seq::new(es.len(), |i: int| display_width(es[i].name@) as usize)
}

/// The grid listing of the entries under the configuration.
pub fn display_columns(entries: &Vec<FileInfo>, config: &DisplayConfig) -> (r: String)
    ensures
        r@ == grid_text(entries@, name_widths(entries@), config.color_enabled, config.term_width as nat),
{
    let mut widths: Vec<usize> = Vec::new();
    let mut i: usize = 0;
    while i < entries.len()
        invariant
            i <= entries@.len(),
            widths@.len() == i,
            forall|k: int| 0 <= k < i ==> #[trigger] widths@[k] == display_width(entries@[k].name@),
        decreases entries@.len() - i,
    {
        let w = text_width(entries[i].name.as_str());
        widths.push(w);
        i = i + 1;
    }
    assert(widths@ =~= name_widths(entries@));
    grid_text_of(entries, &widths, config.color_enabled, config.term_width)
}

// ---- long format ----

/// Why a listing stopped short.
#[derive(Debug, Clone)]
pub enum DisplayError {
    /// The entry at this position has no modification time that can be shown.
    TimeUnavailable(usize),
}

/// The text of a listing, and the error that cut it short, if any; the text
/// holds everything before the point of failure.
#[derive(Debug, Clone)]
pub struct Listing {
    pub text: String,
    pub error: Option<DisplayError>,
}

/// The size column: bytes, or short units (`1.5K`) when humanized.
pub open spec fn size_field(size: nat, human: bool) -> Seq<char> {
    if human {
        humanized(size, UnitStyle::Short)
    } else {
        decimal(size)
    }
}

/// The width of the link-count column: the longest count.
pub open spec fn links_width(es: Seq<FileInfo>) -> nat
    decreases es.len(),
{
    if es.len() == 0 {
        0
    } else if decimal(es.last().nlink as nat).len() > links_width(es.drop_last()) {
        decimal(es.last().nlink as nat).len()
    } else {
        links_width(es.drop_last())
    }
}

/// The width of the size column: the longest size as written.
pub open spec fn sizes_width(es: Seq<FileInfo>, human: bool) -> nat
    decreases es.len(),
{
    if es.len() == 0 {
        0
    } else if size_field(es.last().size as nat, human).len() > sizes_width(es.drop_last(), human) {
        size_field(es.last().size as nat, human).len()
    } else {
        sizes_width(es.drop_last(), human)
    }
}

/// The security-context column: a space and the context, left-aligned.
pub open spec fn label_part(label: Option<String>, w: nat) -> Seq<char> {
    match label {
        Some(l) => " "@ + pad_right(l@, w),
        None => ""@,
    }
}

/// ` -> target` for a symbolic link (`???` where the target is unknown).
pub open spec fn link_part(e: FileInfo) -> Seq<char> {
    if e.kind == FileKind::Symlink {
        " -> "@ + match e.link_target {
            Some(t) => t@,
            None => "???"@,
        }
    } else {
        ""@
    }
}

/// The per-listing settings of the long format's lines.
pub struct LongColumns {
    pub links_width: usize,
    pub size_width: usize,
    pub label_width: usize,
    pub color: bool,
    pub human: bool,
}

/// The permission, link-count, owner and group columns of a long line.
pub open spec fn owner_part(e: FileInfo, c: LongColumns, user: Seq<char>, group: Seq<char>) -> Seq<char> {
    mode_string(e.kind, e.mode) + " "@ + pad_left(decimal(e.nlink as nat), c.links_width as nat)
        + " "@ + user + " "@ + group + " "@
}

/// The size, time and security-context columns of a long line.
pub open spec fn size_time_part(e: FileInfo, c: LongColumns, time: Seq<char>, label: Option<String>) -> Seq<char> {
    pad_left(size_field(e.size as nat, c.human), c.size_width as nat) + " "@ + time + label_part(
        label,
        c.label_width as nat,
    )
}

/// The name (and link target) that ends a long line.
pub open spec fn name_part(e: FileInfo, c: LongColumns) -> Seq<char> {
    " "@ + colored_name(e, c.color) + link_part(e) + "\n"@
}

/// One line of the long format.
pub open spec fn long_line(
    e: FileInfo,
    c: LongColumns,
    user: Seq<char>,
    group: Seq<char>,
    time: Seq<char>,
    label: Option<String>,
) -> Seq<char> {
    owner_part(e, c, user, group) + size_time_part(e, c, time, label) + name_part(e, c)
}

/// The lines of entries `0..k` of the long format.
pub open spec fn long_text_upto(
    es: Seq<FileInfo>,
    c: LongColumns,
    users: Seq<String>,
    groups: Seq<String>,
    times: Seq<Option<String>>,
    labels: Seq<Option<String>>,
    k: nat,
) -> Seq<char>
    decreases k,
{
    if k == 0 {
        Seq::empty()
    } else {
        let i = k - 1;
        long_text_upto(es, c, users, groups, times, labels, (k - 1) as nat) + long_line(
            es[i],
            c,
            users[i]@,
            groups[i]@,
            times[i]->0@,
            labels[i],
        )
    }
}

/// Writes a size for the size column.
pub fn format_size(size: u64, human_readable: bool) -> (r: String)
    ensures
        r@ == size_field(size as nat, human_readable),
{
    if human_readable {
        humanize(size, UnitStyle::Short)
    } else {
        decimal_string(size as u128)
    }
}

/// The widths of the link-count and size columns over all entries.
pub fn column_widths(entries: &Vec<FileInfo>, human: bool) -> (r: (usize, usize))
    ensures
        r.0 == links_width(entries@),
        r.1 == sizes_width(entries@, human),
{
    let mut lw: usize = 0;
    let mut sw: usize = 0;
    let mut i: usize = 0;
    while i < entries.len()
        invariant
            i <= entries@.len(),
            lw == links_width(entries@.subrange(0, i as int)),
            sw == sizes_width(entries@.subrange(0, i as int), human),
        decreases entries@.len() - i,
    {
        assert(entries@.subrange(0, i + 1).drop_last() =~= entries@.subrange(0, i as int));
        let l = decimal_string(entries[i].nlink as u128).as_str().unicode_len();
        if l > lw {
            lw = l;
        }
        let z = format_size(entries[i].size, human).as_str().unicode_len();
        if z > sw {
            sw = z;
        }
        i = i + 1;
    }
    assert(entries@.subrange(0, entries@.len() as int) =~= entries@);
    (lw, sw)
}

fn push_owner_part(s: &mut String, e: &FileInfo, c: &LongColumns, user: &str, group: &str)
    ensures
        final(s)@ == old(s)@ + owner_part(*e, *c, user@, group@),
{
    s.append(get_mode_string(e.kind, e.mode).as_str());
    s.append(" ");
    push_padded_left(s, decimal_string(e.nlink as u128).as_str(), c.links_width);
    s.append(" ");
    s.append(user);
    s.append(" ");
    s.append(group);
    s.append(" ");
    assert(final(s)@ =~= old(s)@ + owner_part(*e, *c, user@, group@));
}

fn push_size_time_part(s: &mut String, e: &FileInfo, c: &LongColumns, time: &str, label: &Option<String>)
    ensures
        final(s)@ == old(s)@ + size_time_part(*e, *c, time@, *label),
{
    push_padded_left(s, format_size(e.size, c.human).as_str(), c.size_width);
    s.append(" ");
    s.append(time);
    match label {
        Some(l) => {
            s.append(" ");
            push_padded_right(s, l.as_str(), c.label_width);
        },
        None => {},
    }
    proof {
        reveal_strlit("");
    }
    assert(final(s)@ =~= old(s)@ + size_time_part(*e, *c, time@, *label));
}

fn push_name_part(s: &mut String, e: &FileInfo, c: &LongColumns)
    ensures
        final(s)@ == old(s)@ + name_part(*e, *c),
{
    s.append(" ");
    push_name(s, e, c.color);
    if e.kind == FileKind::Symlink {
        s.append(" -> ");
        match &e.link_target {
            Some(t) => s.append(t.as_str()),
            None => s.append("???"),
        }
    }
    s.append("\n");
    proof {
        reveal_strlit("");
    }
    assert(final(s)@ =~= old(s)@ + name_part(*e, *c));
}

fn push_long_line(
    s: &mut String,
    e: &FileInfo,
    c: &LongColumns,
    user: &str,
    group: &str,
    time: &str,
    label: &Option<String>,
)
    ensures
        final(s)@ == old(s)@ + long_line(*e, *c, user@, group@, time@, *label),
{
    push_owner_part(s, e, c, user, group);
    push_size_time_part(s, e, c, time, label);
    push_name_part(s, e, c);
    assert(final(s)@ =~= old(s)@ + long_line(*e, *c, user@, group@, time@, *label));
}

/// What a long listing comes to, given the looked-up columns: every line
/// where every entry has a time; else the lines before the first entry
/// without one, and an error naming that entry.
pub open spec fn long_outcome(
    es: Seq<FileInfo>,
    c: LongColumns,
    users: Seq<String>,
    groups: Seq<String>,
    times: Seq<Option<String>>,
    labels: Seq<Option<String>>,
    r: Listing,
) -> bool {
    &&& r.error is None ==> (forall|i: int| 0 <= i < es.len() ==> #[trigger] times[i] is Some)
        && r.text@ == long_text_upto(es, c, users, groups, times, labels, es.len())
    &&& r.error matches Some(DisplayError::TimeUnavailable(k)) ==> k < es.len() && times[k as int]
        is None && (forall|i: int| 0 <= i < k ==> #[trigger] times[i] is Some) && r.text@
        == long_text_upto(es, c, users, groups, times, labels, k as nat)
}

/// The long listing of the entries, given each entry's owner and group names,
/// its time as shown (none where it cannot be shown) and its security
/// context as shown (none where it has none). Lines are written in order;
/// the first entry without a time stops the listing with an error.
pub fn long_text_of(
    entries: &Vec<FileInfo>,
    c: &LongColumns,
    users: &Vec<String>,
    groups: &Vec<String>,
    times: &Vec<Option<String>>,
    labels: &Vec<Option<String>>,
) -> (r: Listing)
    requires
        users@.len() == entries@.len(),
        groups@.len() == entries@.len(),
        times@.len() == entries@.len(),
        labels@.len() == entries@.len(),
    ensures
        long_outcome(entries@, *c, users@, groups@, times@, labels@, r),
{
    let mut s = String::new();
    let mut i: usize = 0;
    while i < entries.len()
        invariant
            i <= entries@.len(),
            users@.len() == entries@.len(),
            groups@.len() == entries@.len(),
            times@.len() == entries@.len(),
            labels@.len() == entries@.len(),
            forall|k: int| 0 <= k < i ==> #[trigger] times@[k] is Some,
            s@ == long_text_upto(entries@, *c, users@, groups@, times@, labels@, i as nat),
        decreases entries@.len() - i,
    {
        match &times[i] {
            None => {
                return Listing { text: s, error: Some(DisplayError::TimeUnavailable(i)) };
            },
            Some(t) => {
                push_long_line(
                    &mut s,
                    &entries[i],
                    c,
                    users[i].as_str(),
                    groups[i].as_str(),
                    t.as_str(),
                    &labels[i],
                );
            },
        }
        i = i + 1;
    }
    Listing { text: s, error: None }
}

/// Relies on `users::get_user_by_uid`: the account name of a user id, where
/// the system's user database has one. The answer depends on that database.
#[verifier::external_body]
fn lookup_user_name(uid: u32) -> (r: Option<String>) {
    match users::get_user_by_uid(uid) {
        Some(u) => Some(u.name().to_string_lossy().into_owned()),
        None => None,
    }
}

/// Relies on `users::get_group_by_gid`: the name of a group id, where the
/// system's group database has one. The answer depends on that database.
#[verifier::external_body]
fn lookup_group_name(gid: u32) -> (r: Option<String>) {
    match users::get_group_by_gid(gid) {
        Some(g) => Some(g.name().to_string_lossy().into_owned()),
        None => None,
    }
}

/// Whether `chrono` can place an instant in local time.
pub open spec fn time_in_range(t: Timestamp) -> bool {
    -TIME_LIMIT <= t.secs <= TIME_LIMIT && t.nanos < 1_000_000_000
}

/// The seconds from the epoch that `chrono` can place in local time.
pub const TIME_LIMIT: i64 = 8_000_000_000_000;

/// Relies on `chrono`: `DateTime::from_timestamp` and `with_timezone(&Local)`
/// place the instant in the machine's time zone, and `format("%b %d %H:%M")`
/// writes it as a three-letter month, then day, hour and minute of two
/// digits each. The answer depends on the time zone.
#[verifier::external_body]
fn local_time_text(secs: i64, nanos: u32) -> (r: Option<String>)
    requires
        -TIME_LIMIT <= secs <= TIME_LIMIT,
    ensures
        nanos < 1_000_000_000 ==> r is Some,
        r matches Some(t) ==> t@.len() == 12,
{
    match chrono::DateTime::from_timestamp(secs, nanos) {
        Some(t) => Some(t.with_timezone(&chrono::Local).format("%b %d %H:%M").to_string()),
        None => None,
    }
}

/// The owner or group column: the name where one was found, else the id.
pub fn name_or_id(id: u32, name: Option<String>) -> (r: String)
    ensures
        r@ == match name {
            Some(n) => n@,
            None => decimal(id as nat),
        },
{
    match name {
        Some(n) => n,
        None => decimal_string(id as u128),
    }
}

/// The name of a user id, or the id in decimal.
pub fn get_user_name(uid: u32) -> (r: String) {
    name_or_id(uid, lookup_user_name(uid))
}

/// The name of a group id, or the id in decimal.
pub fn get_group_name(gid: u32) -> (r: String) {
    name_or_id(gid, lookup_group_name(gid))
}

/// A modification time as the long format shows it, in local time; none
/// where the time is unknown or out of the calendar's range.
pub fn format_time(t: Option<Timestamp>) -> (r: Option<String>)
    ensures
        t is None ==> r is None,
        t matches Some(ts) && time_in_range(ts) ==> r is Some,
        r matches Some(s) ==> s@.len() == 12,
{
    match t {
        None => None,
        Some(ts) => if -TIME_LIMIT <= ts.secs && ts.secs <= TIME_LIMIT {
            local_time_text(ts.secs, ts.nanos)
        } else {
            None
        },
    }
}

/// The label an entry shows under the configuration.
pub open spec fn entry_label(config: DisplayConfig, e: FileInfo) -> Option<Seq<char>> {
    match config.selinux_handler {
        Some(h) => label_of(h.config(), e.security_context),
        None => None,
    }
}

/// The width of the label column over the entries.
pub open spec fn entries_label_width(config: DisplayConfig, es: Seq<FileInfo>) -> nat {
    match config.selinux_handler {
        Some(h) => label_width(h.config(), Seq::new(es.len(), |i: int| entry_label(config, es[i]))),
        None => 0,
    }
}

/// The column settings of the long listing of the entries.
pub open spec fn long_columns(config: DisplayConfig, es: Seq<FileInfo>) -> LongColumns {
    LongColumns {
        links_width: links_width(es) as usize,
        size_width: sizes_width(es, config.human_readable) as usize,
        label_width: entries_label_width(config, es) as usize,
        color: config.color_enabled,
        human: config.human_readable,
    }
}

/// What the looked-up columns of a long listing hold: one of each per
/// entry; a time exactly where the entry's time is known and can be placed
/// in local time; the entry's label where it has one.
pub open spec fn long_inputs(
    config: DisplayConfig,
    es: Seq<FileInfo>,
    users: Seq<String>,
    groups: Seq<String>,
    times: Seq<Option<String>>,
    labels: Seq<Option<String>>,
) -> bool {
    &&& users.len() == es.len()
    &&& groups.len() == es.len()
    &&& times.len() == es.len()
    &&& labels.len() == es.len()
    &&& forall|i: int|
        0 <= i < es.len() ==> (#[trigger] es[i].modified is None ==> times[i] is None) && (
        es[i].modified matches Some(t) && time_in_range(t) ==> times[i] is Some)
    &&& forall|i: int|
        0 <= i < es.len() ==> (#[trigger] labels[i] is Some <==> entry_label(config, es[i]) is Some)
            && (labels[i] is Some ==> entry_label(config, es[i]) == Some(labels[i]->0@))
}

/// The long listing of the entries under the configuration, for the owner
/// and group names and local times found here.
pub open spec fn long_listing(config: DisplayConfig, es: Seq<FileInfo>, r: Listing) -> bool {
    exists|users: Seq<String>, groups: Seq<String>, times: Seq<Option<String>>, labels: Seq<Option<String>>|
        long_inputs(config, es, users, groups, times, labels) && long_outcome(
            es,
            long_columns(config, es),
            users,
            groups,
            times,
            labels,
            r,
        )
}

/// The long listing of the entries under the configuration: names of owners
/// and groups and local times are looked up here, and security contexts are
/// read when the configuration has a handler (a label that cannot be read is
/// left out). An entry whose time cannot be shown stops the listing there.
pub fn display_long_format(entries: &Vec<FileInfo>, config: &DisplayConfig) -> (r: Listing)
    ensures
        long_listing(*config, entries@, r),
{
    let n = entries.len();
    let ghost es = entries@;
    let ghost wanted = Seq::new(n as nat, |i: int| entry_label(*config, es[i]));
    let mut labels: Vec<Option<String>> = Vec::new();
    let mut label_width: usize = 0;
    match config.selinux_handler {
        Some(handler) => {
            let ghost cfg = handler.config();
            let mut contexts: Vec<Option<SELinuxContext>> = Vec::new();
            let mut i: usize = 0;
            while i < n
                invariant
                    n == es.len(),
                    es == entries@,
                    config.selinux_handler == Some(handler),
                    cfg == handler.config(),
                    wanted == Seq::new(n as nat, |i: int| entry_label(*config, es[i])),
                    i <= n,
                    contexts@.len() == i,
                    labels@.len() == i,
                    forall|k: int|
                        0 <= k < i ==> #[trigger] shown_contexts(cfg, contexts@)[k] == wanted[k],
                    forall|k: int|
                        0 <= k < i ==> (#[trigger] labels@[k] is Some <==> wanted[k] is Some) && (
                        labels@[k] is Some ==> wanted[k] == Some(labels@[k]->0@)),
                decreases n - i,
            {
                let ghost c0 = contexts@;
                let ghost l0 = labels@;
                match entries[i].get_selinux_context(&handler) {
                    Ok(Some(c)) => {
                        labels.push(Some(handler.format_context(&c)));
                        contexts.push(Some(c));
                    },
                    _ => {
                        labels.push(None);
                        contexts.push(None);
                    },
                }
                assert forall|k: int| 0 <= k < i + 1 implies #[trigger] shown_contexts(
                    cfg,
                    contexts@,
                )[k] == wanted[k] by {
                    if k < i {
                        assert(contexts@[k] == c0[k]);
                        assert(shown_contexts(cfg, c0)[k] == wanted[k]);
                    }
                }
                assert forall|k: int| 0 <= k < i + 1 implies (#[trigger] labels@[k] is Some
                    <==> wanted[k] is Some) && (labels@[k] is Some ==> wanted[k] == Some(
                    labels@[k]->0@,
                )) by {
                    if k < i {
                        assert(labels@[k] == l0[k]);
                    }
                }
                i = i + 1;
            }
            label_width = handler.get_context_width(&contexts);
            assert(shown_contexts(cfg, contexts@) =~= wanted);
        },
        None => {
            let mut j: usize = 0;
            while j < n
                invariant
                    n == es.len(),
                    config.selinux_handler is None,
                    wanted == Seq::new(n as nat, |i: int| entry_label(*config, es[i])),
                    j <= n,
                    labels@.len() == j,
                    forall|k: int| 0 <= k < j ==> #[trigger] labels@[k] is None,
                decreases n - j,
            {
                labels.push(None);
                j = j + 1;
            }
        },
    }
    assert(label_width == entries_label_width(*config, es));
    let mut users: Vec<String> = Vec::new();
    let mut groups: Vec<String> = Vec::new();
    let mut times: Vec<Option<String>> = Vec::new();
    let mut i: usize = 0;
    while i < n
        invariant
            n == entries@.len(),
            i <= n,
            users@.len() == i,
            groups@.len() == i,
            times@.len() == i,
            forall|k: int|
                0 <= k < i ==> (#[trigger] entries@[k].modified is None ==> times@[k] is None) && (
                entries@[k].modified matches Some(t) && time_in_range(t) ==> times@[k] is Some),
        decreases n - i,
    {
        users.push(get_user_name(entries[i].uid));
        groups.push(get_group_name(entries[i].gid));
        times.push(format_time(entries[i].modified));
        i = i + 1;
    }
    let (links_width, size_width) = column_widths(entries, config.human_readable);
    let columns = LongColumns {
        links_width,
        size_width,
        label_width,
        color: config.color_enabled,
        human: config.human_readable,
    };
    assert(columns == long_columns(*config, es));
    let r = long_text_of(entries, &columns, &users, &groups, &times, &labels);
    assert(long_inputs(*config, es, users@, groups@, times@, labels@));
    r
}

/// The listing of the entries: the long format or the grid, as configured.
/// The grid never fails.
pub fn display_entries(entries: &Vec<FileInfo>, config: &DisplayConfig) -> (r: Listing)
    ensures
        !config.use_long_format ==> r.error is None && r.text@ == grid_text(
            entries@,
            name_widths(entries@),
            config.color_enabled,
            config.term_width as nat,
        ),
        config.use_long_format ==> long_listing(*config, entries@, r),
{
    if config.use_long_format {
        display_long_format(entries, config)
    } else {
        Listing { text: display_columns(entries, config), error: None }
    }
}

} // verus!
