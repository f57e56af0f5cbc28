//! Terminal output: ANSI colours, the display width of coloured text, and
//! text tables whose columns line up even when cells are coloured.

use vstd::prelude::*;
use crate::connection::ConnectionStatus;
use crate::models::SegmentStatus;
use crate::api::SegmentSummary;
use crate::common_config::ClientConfig;
use crate::diagnostic::{role_label, role_name, DiagItem};
use crate::models::RouteEntry;
use crate::scanner::{InterfaceType, NetworkInterface};
use crate::text::{chars_of, decimal, decimal_string, push_decimal_u128, push_chars, push_str, string_from_chars, views};

verus! {

/// Resets colour and style.
pub const RESET: &'static str = "\x1b[0m";

/// Bold.
pub const BOLD: &'static str = "\x1b[1m";

/// Dim.
pub const DIM: &'static str = "\x1b[2m";

/// Red.
pub const RED: &'static str = "\x1b[31m";

/// Green.
pub const GREEN: &'static str = "\x1b[32m";

/// Yellow.
pub const YELLOW: &'static str = "\x1b[33m";

/// Blue.
pub const BLUE: &'static str = "\x1b[34m";

/// Magenta.
pub const MAGENTA: &'static str = "\x1b[35m";

/// Cyan.
pub const CYAN: &'static str = "\x1b[36m";

/// Gray.
pub const GRAY: &'static str = "\x1b[90m";

/// `text` in `color` where colours are enabled, else `text` itself.
pub open spec fn painted(color: Seq<char>, text: Seq<char>, enabled: bool) -> Seq<char> {
    if enabled {
        color + text + "\x1b[0m"@
    } else {
        text
    }
}

/// `text` in `color` where the terminal takes colours (`enabled`).
pub fn paint(color: &str, text: &str, enabled: bool) -> (s: String)
    ensures
        s@ == painted(color@, text@, enabled),
{
    if enabled {
        let mut v: Vec<char> = Vec::new();
        push_str(&mut v, color);
        push_str(&mut v, text);
        push_str(&mut v, RESET);
        string_from_chars(v.as_slice())
    } else {
        text.to_owned()
    }
}

/// Green text.
pub fn green(text: &str, enabled: bool) -> (s: String)
    ensures
        s@ == painted("\x1b[32m"@, text@, enabled),
{
    paint(GREEN, text, enabled)
}

/// Red text.
pub fn red(text: &str, enabled: bool) -> (s: String)
    ensures
        s@ == painted("\x1b[31m"@, text@, enabled),
{
    paint(RED, text, enabled)
}

/// Yellow text.
pub fn yellow(text: &str, enabled: bool) -> (s: String)
    ensures
        s@ == painted("\x1b[33m"@, text@, enabled),
{
    paint(YELLOW, text, enabled)
}

/// Cyan text.
pub fn cyan(text: &str, enabled: bool) -> (s: String)
    ensures
        s@ == painted("\x1b[36m"@, text@, enabled),
{
    paint(CYAN, text, enabled)
}

/// Gray text.
pub fn gray(text: &str, enabled: bool) -> (s: String)
    ensures
        s@ == painted("\x1b[90m"@, text@, enabled),
{
    paint(GRAY, text, enabled)
}

/// Bold text.
pub fn bold(text: &str, enabled: bool) -> (s: String)
    ensures
        s@ == painted("\x1b[1m"@, text@, enabled),
{
    paint(BOLD, text, enabled)
}

/// A connection state in its colour: green when connected, yellow while
/// (re)connecting, red otherwise.
pub fn connection_status_colored(status: &ConnectionStatus, enabled: bool) -> (s: String)
    ensures
        s@ == painted(
            match *status {
                ConnectionStatus::Connected => "\x1b[32m"@,
                ConnectionStatus::Connecting | ConnectionStatus::Reconnecting => "\x1b[33m"@,
                _ => "\x1b[31m"@,
            },
            status.label(),
            enabled,
        ),
{
    let text = status.as_str();
    match status {
        ConnectionStatus::Connected => green(text, enabled),
        ConnectionStatus::Connecting | ConnectionStatus::Reconnecting => yellow(text, enabled),
        ConnectionStatus::Disconnected | ConnectionStatus::Failed => red(text, enabled),
    }
}

/// A segment state's label in its colour.
pub fn segment_status_colored(status: &SegmentStatus, enabled: bool) -> (s: String)
    ensures
        s@ == match *status {
            SegmentStatus::Active => painted("\x1b[32m"@, "已激活"@, enabled),
            SegmentStatus::Pending => painted("\x1b[33m"@, "待激活"@, enabled),
            SegmentStatus::Disabled => painted("\x1b[90m"@, "已禁用"@, enabled),
            SegmentStatus::Error => painted("\x1b[31m"@, "错误"@, enabled),
        },
{
    match status {
        SegmentStatus::Active => green("已激活", enabled),
        SegmentStatus::Pending => yellow("待激活", enabled),
        SegmentStatus::Disabled => gray("已禁用", enabled),
        SegmentStatus::Error => red("错误", enabled),
    }
}

// ------------------------------------------------------------------
// Display width
// ------------------------------------------------------------------

pub open spec fn is_ascii_alpha(c: char) -> bool {
    ('a' <= c && c <= 'z') || ('A' <= c && c <= 'Z')
}

/// Where an escape sequence whose parameters start at `i` ends: just after
/// its first ASCII letter, or at the end of the text.
pub open spec fn escape_end(s: Seq<char>, i: int) -> int
    decreases s.len() - i,
{
    if i >= s.len() {
        s.len() as int
    } else if is_ascii_alpha(s[i]) {
        i + 1
    } else {
        escape_end(s, i + 1)
    }
}

proof fn lemma_escape_end(s: Seq<char>, i: int)
    requires
        0 <= i,
    ensures
        escape_end(s, i) >= i || escape_end(s, i) == s.len(),
        escape_end(s, i) <= s.len() || escape_end(s, i) == i + 1,
        i <= s.len() ==> i <= escape_end(s, i) <= s.len(),
    decreases s.len() - i,
{
    if i < s.len() && !is_ascii_alpha(s[i]) {
        lemma_escape_end(s, i + 1);
    }
}

/// The number of characters of `s` from `i` on that show on a terminal:
/// every character but those of escape sequences (`ESC [ ... letter`); a
/// lone `ESC` does not show either.
pub open spec fn width_from(s: Seq<char>, i: int) -> nat
    decreases s.len() - i,
{
    if i < 0 || i >= s.len() {
        0
    } else if s[i] == '\x1b' {
        if i + 1 < s.len() && s[i + 1] == '[' {
            let e = escape_end(s, i + 2);
            if i < e <= s.len() {
                width_from(s, e)
            } else {
                0
            }
        } else {
            width_from(s, i + 1)
        }
    } else {
        1 + width_from(s, i + 1)
    }
}

/// The display width of `s`.
pub open spec fn display_width_of(s: Seq<char>) -> nat {
    width_from(s, 0)
}

proof fn lemma_width_bound(s: Seq<char>, i: int)
    requires
        0 <= i <= s.len(),
    ensures
        width_from(s, i) <= s.len() - i,
    decreases s.len() - i,
{
    if i < s.len() {
        if s[i] == '\x1b' {
            if i + 1 < s.len() && s[i + 1] == '[' {
                lemma_escape_end(s, i + 2);
                let e = escape_end(s, i + 2);
                if i < e <= s.len() {
                    lemma_width_bound(s, e);
                }
            } else {
                lemma_width_bound(s, i + 1);
            }
        } else {
            lemma_width_bound(s, i + 1);
        }
    }
}

/// The number of characters of `s` that show on a terminal.
pub fn display_width(s: &str) -> (w: usize)
    ensures
        w == display_width_of(s@),
{
    let v = chars_of(s);
    let n = v.len();
    let mut count: usize = 0;
    let mut i: usize = 0;
    while i < n
        invariant
            n == v@.len(),
            v@ == s@,
            i <= n,
            count + width_from(v@, i as int) == width_from(v@, 0),
            count <= i,
        decreases n - i,
    {
        if v[i] == '\x1b' {
            if i + 1 < n && v[i + 1] == '[' {
                let mut j: usize = i + 2;
                proof {
                    lemma_escape_end(v@, i + 2);
                }
                while j < n && !(('a' <= v[j] && v[j] <= 'z') || ('A' <= v[j] && v[j] <= 'Z'))
                    invariant
                        n == v@.len(),
                        i + 2 <= j,
                        i < n,
                        escape_end(v@, j as int) == escape_end(v@, i + 2),
                    decreases n - j,
                {
                    j += 1;
                }
                let e = if j < n {
                    j + 1
                } else {
                    n
                };
                assert(e == escape_end(v@, j as int));
                proof {
                    lemma_escape_end(v@, i + 2);
                }
                i = e;
            } else {
                i += 1;
            }
        } else {
            count += 1;
            i += 1;
        }
    }
    count
}

// ------------------------------------------------------------------
// Tables
// ------------------------------------------------------------------

/// A text table: headers and rows of cells.
pub struct Table {
    headers: Vec<String>,
    rows: Vec<Vec<String>>,
}

/// The width of column `i`: the largest display width of the header and
/// of the cells in that column.
pub open spec fn column_width(headers: Seq<Seq<char>>, rows: Seq<Seq<Seq<char>>>, i: int) -> nat
    decreases rows.len(),
{
    if rows.len() == 0 {
        display_width_of(headers[i])
    } else {
        let w = column_width(headers, rows.drop_last(), i);
        let last = rows.last();
        if i < last.len() && display_width_of(last[i]) > w {
            display_width_of(last[i])
        } else {
            w
        }
    }
}

/// The widths of all columns.
pub open spec fn column_widths(headers: Seq<Seq<char>>, rows: Seq<Seq<Seq<char>>>) -> Seq<nat> {
    Seq::new(headers.len(), |i: int| column_width(headers, rows, i))
}

/// `n` copies of `c`.
pub open spec fn repeat(c: char, n: nat) -> Seq<char> {
    Seq::new(n, |_i: int| c)
}

/// Padding after cell `i`: what its column's width leaves (0 past the
/// columns).
pub open spec fn padding(cells: Seq<Seq<char>>, widths: Seq<nat>, i: int) -> nat {
    let w: int = if i < widths.len() {
        widths[i] as int
    } else {
        0
    };
    let d = display_width_of(cells[i]) as int;
    if w > d {
        (w - d) as nat
    } else {
        0
    }
}

/// The first `k` cells of a row, each as ` cell<padding> |`.
pub open spec fn cells_text(cells: Seq<Seq<char>>, widths: Seq<nat>, k: int) -> Seq<char>
    decreases k,
{
    if k <= 0 {
        Seq::empty()
    } else {
        cells_text(cells, widths, k - 1) + seq![' '] + cells[k - 1] + repeat(' ', padding(cells, widths, k - 1))
            + " |"@
    }
}

/// A row of the table.
pub open spec fn row_text(cells: Seq<Seq<char>>, widths: Seq<nat>) -> Seq<char> {
    seq!['|'] + cells_text(cells, widths, cells.len() as int)
}

/// The first `k` columns of the separator line, each as `-<dashes>-+`.
pub open spec fn separator_part(widths: Seq<nat>, k: int) -> Seq<char>
    decreases k,
{
    if k <= 0 {
        Seq::empty()
    } else {
        separator_part(widths, k - 1) + seq!['-'] + repeat('-', widths[k - 1]) + "-+"@
    }
}

/// The separator line under the headers.
pub open spec fn separator_text(widths: Seq<nat>) -> Seq<char> {
    seq!['+'] + separator_part(widths, widths.len() as int)
}

/// The first `k` rows, each ending with a newline.
pub open spec fn rows_text(rows: Seq<Seq<Seq<char>>>, widths: Seq<nat>, k: int) -> Seq<char>
    decreases k,
{
    if k <= 0 {
        Seq::empty()
    } else {
        rows_text(rows, widths, k - 1) + row_text(rows[k - 1], widths) + seq!['\n']
    }
}

/// The rendering of a table: the header row, the separator, then the rows.
pub open spec fn table_text(headers: Seq<Seq<char>>, rows: Seq<Seq<Seq<char>>>) -> Seq<char> {
    let w = column_widths(headers, rows);
    row_text(headers, w) + seq!['\n'] + separator_text(w) + seq!['\n'] + rows_text(rows, w, rows.len() as int)
}

/// A column is at least as wide as its header and as every cell in it.
proof fn lemma_column_width_bounds(headers: Seq<Seq<char>>, rows: Seq<Seq<Seq<char>>>, i: int)
    ensures
        display_width_of(headers[i]) <= column_width(headers, rows, i),
        forall|k: int|
            0 <= k < rows.len() && i < rows[k].len() ==> display_width_of(#[trigger] rows[k][i]) <= column_width(
                headers,
                rows,
                i,
            ),
    decreases rows.len(),
{
    if rows.len() > 0 {
        lemma_column_width_bounds(headers, rows.drop_last(), i);
        assert forall|k: int| 0 <= k < rows.len() && i < rows[k].len() implies display_width_of(
            #[trigger] rows[k][i],
        ) <= column_width(headers, rows, i) by {
            if k < rows.len() - 1 {
                assert(rows.drop_last()[k] == rows[k]);
            }
        }
    }
}

/// Columns line up: in the rendering, the header and every cell of a
/// column, each with its padding, take exactly the column's width, escape
/// sequences not counted.
pub proof fn lemma_cells_fill_columns(headers: Seq<Seq<char>>, rows: Seq<Seq<Seq<char>>>, i: int)
    requires
        0 <= i < headers.len(),
    ensures
        display_width_of(headers[i]) + padding(headers, column_widths(headers, rows), i) == column_widths(
            headers,
            rows,
        )[i],
        forall|k: int|
            0 <= k < rows.len() && i < rows[k].len() ==> display_width_of(#[trigger] rows[k][i]) + padding(
                rows[k],
                column_widths(headers, rows),
                i,
            ) == column_widths(headers, rows)[i],
{
    lemma_column_width_bounds(headers, rows, i);
}

/// The texts of the rows.
pub open spec fn row_views(rows: Seq<Vec<String>>) -> Seq<Seq<Seq<char>>> {
    rows.map_values(|r: Vec<String>| views(r@))
}

fn push_repeat(out: &mut Vec<char>, c: char, n: usize)
    ensures
        final(out)@ == old(out)@ + repeat(c, n as nat),
{
    let mut k: usize = 0;
    while k < n
        invariant
            k <= n,
            out@ == old(out)@ + repeat(c, k as nat),
        decreases n - k,
    {
        out.push(c);
        k += 1;
        assert(out@ =~= old(out)@ + repeat(c, k as nat));
    }
}

fn push_row(out: &mut Vec<char>, cells: &Vec<String>, widths: &Vec<usize>)
    ensures
        final(out)@ == old(out)@ + row_text(views(cells@), widths@.map_values(|w: usize| w as nat)),
{
    let ghost ws = widths@.map_values(|w: usize| w as nat);
    let ghost cs = views(cells@);
    out.push('|');
    let n = cells.len();
    let mut i: usize = 0;
    while i < n
        invariant
            n == cells@.len(),
            cs == views(cells@),
            ws == widths@.map_values(|w: usize| w as nat),
            i <= n,
            out@ == old(out)@ + seq!['|'] + cells_text(cs, ws, i as int),
        decreases n - i,
    {
        let cell = cells[i].as_str();
        let w: usize = if i < widths.len() {
            widths[i]
        } else {
            0
        };
        let d = display_width(cell);
        let pad: usize = if w > d {
            w - d
        } else {
            0
        };
        assert(pad == padding(cs, ws, i as int));
        out.push(' ');
        push_str(out, cell);
        push_repeat(out, ' ', pad);
        push_str(out, " |");
        i += 1;
        assert(out@ =~= old(out)@ + seq!['|'] + cells_text(cs, ws, i as int));
    }
    assert(cs.len() == n);
}

fn push_separator(out: &mut Vec<char>, widths: &Vec<usize>)
    ensures
        final(out)@ == old(out)@ + separator_text(widths@.map_values(|w: usize| w as nat)),
{
    let ghost ws = widths@.map_values(|w: usize| w as nat);
    out.push('+');
    let n = widths.len();
    let mut i: usize = 0;
    while i < n
        invariant
            n == widths@.len(),
            ws == widths@.map_values(|w: usize| w as nat),
            i <= n,
            out@ == old(out)@ + seq!['+'] + separator_part(ws, i as int),
        decreases n - i,
    {
        out.push('-');
        push_repeat(out, '-', widths[i]);
        push_str(out, "-+");
        i += 1;
        assert(out@ =~= old(out)@ + seq!['+'] + separator_part(ws, i as int));
    }
}

impl Table {
    /// The header texts.
    pub closed spec fn header_texts(&self) -> Seq<Seq<char>> {
        views(self.headers@)
    }

    /// The texts of the rows' cells.
    pub closed spec fn row_texts(&self) -> Seq<Seq<Seq<char>>> {
        row_views(self.rows@)
    }

    /// A table with the given headers and no rows.
    pub fn new(headers: &[&str]) -> (t: Table)
        ensures
            t.header_texts().len() == headers@.len(),
            forall|i: int| 0 <= i < headers@.len() ==> t.header_texts()[i] == headers@[i]@,
            t.row_texts().len() == 0,
    {
        let mut hs: Vec<String> = Vec::new();
        let n = headers.len();
        let mut i: usize = 0;
        while i < n
            invariant
                n == headers@.len(),
                i <= n,
                hs@.len() == i,
                forall|k: int| 0 <= k < i ==> (#[trigger] hs@[k])@ == headers@[k]@,
            decreases n - i,
        {
            hs.push(headers[i].to_owned());
            i += 1;
        }
        let t = Table { headers: hs, rows: Vec::new() };
        assert(t.row_texts() =~= Seq::<Seq<Seq<char>>>::empty());
        t
    }

    /// Adds a row; a row shorter than the headers is filled up with empty
    /// cells.
    pub fn add_row(&mut self, row: &[String])
        ensures
            final(self).header_texts() == old(self).header_texts(),
            final(self).row_texts().len() == old(self).row_texts().len() + 1,
            forall|k: int|
                0 <= k < old(self).row_texts().len() ==> final(self).row_texts()[k] == old(self).row_texts()[k],
            ({
                let r = final(self).row_texts().last();
                let h = old(self).header_texts().len();
                &&& r.len() == if row@.len() < h {
                    h
                } else {
                    row@.len()
                }
                &&& forall|k: int| 0 <= k < row@.len() ==> r[k] == row@[k]@
                &&& forall|k: int| row@.len() <= k < r.len() ==> r[k] == Seq::<char>::empty()
            }),
    {
        let mut r: Vec<String> = Vec::new();
        let n = row.len();
        let mut i: usize = 0;
        while i < n
            invariant
                n == row@.len(),
                i <= n,
                r@.len() == i,
                forall|k: int| 0 <= k < i ==> (#[trigger] r@[k])@ == row@[k]@,
            decreases n - i,
        {
            r.push(row[i].clone());
            i += 1;
        }
        let h = self.headers.len();
        while r.len() < h
            invariant
                r@.len() >= n,
                n == row@.len(),
                forall|k: int| 0 <= k < n ==> (#[trigger] r@[k])@ == row@[k]@,
                forall|k: int| n <= k < r@.len() ==> (#[trigger] r@[k])@ == Seq::<char>::empty(),
                r@.len() <= if n < h {
                    h
                } else {
                    n
                },
            decreases h - r@.len(),
        {
            r.push(String::new());
        }
        let ghost before = self.rows@;
        self.rows.push(r);
        proof {
            assert(self.rows@ == before.push(r));
            assert(self.row_texts() =~= row_views(before).push(views(r@)));
        }
    }

    fn widths(&self) -> (ws: Vec<usize>)
        ensures
            ws@.map_values(|w: usize| w as nat) == column_widths(self.header_texts(), self.row_texts()),
    {
        let ghost hs = self.header_texts();
        let ghost all = self.row_texts();
        let nh = self.headers.len();
        let mut ws: Vec<usize> = Vec::new();
        let mut i: usize = 0;
        while i < nh
            invariant
                nh == self.headers@.len(),
                hs == self.header_texts(),
                i <= nh,
                ws@.len() == i,
                forall|k: int| 0 <= k < i ==> ws@[k] as nat == column_width(hs, Seq::empty(), k),
            decreases nh - i,
        {
            ws.push(display_width(self.headers[i].as_str()));
            i += 1;
        }
        let nr = self.rows.len();
        let mut j: usize = 0;
        while j < nr
            invariant
                nr == self.rows@.len(),
                nh == self.headers@.len(),
                hs == self.header_texts(),
                all == self.row_texts(),
                j <= nr,
                ws@.len() == nh,
                forall|k: int| 0 <= k < nh ==> ws@[k] as nat == column_width(hs, all.subrange(0, j as int), k),
            decreases nr - j,
        {
            let row = &self.rows[j];
            let ghost prev = ws@;
            proof {
                assert(all.subrange(0, j + 1).drop_last() =~= all.subrange(0, j as int));
                assert(all[j as int] == views(row@));
            }
            let nc = row.len();
            let mut c: usize = 0;
            while c < nc
                invariant
                    nc == row@.len(),
                    ws@.len() == nh,
                    c <= nc,
                    forall|k: int|
                        0 <= k < nh ==> ws@[k] as nat == if k < c && display_width_of(row@[k]@) > prev[k] {
                            display_width_of(row@[k]@)
                        } else {
                            prev[k] as nat
                        },
                decreases nc - c,
            {
                if c < ws.len() {
                    let d = display_width(row[c].as_str());
                    if d > ws[c] {
                        ws.set(c, d);
                    }
                }
                c += 1;
            }
            proof {
                assert forall|k: int| 0 <= k < nh implies ws@[k] as nat == column_width(
                    hs,
                    all.subrange(0, j + 1),
                    k,
                ) by {
                    let sub = all.subrange(0, j + 1);
                    assert(sub.last() == views(row@));
                    if k < nc {
                        assert(sub.last()[k] == row@[k]@);
                    }
                }
            }
            j += 1;
        }
        proof {
            assert(all.subrange(0, nr as int) =~= all);
            assert(ws@.map_values(|w: usize| w as nat) =~= column_widths(hs, all));
        }
        ws
    }

    /// The table as text: the header row, a separator line, then one line
    /// per row, every cell padded to its column's width.
    pub fn render(&self) -> (s: String)
        ensures
            s@ == table_text(self.header_texts(), self.row_texts()),
    {
        let ws = self.widths();
        let ghost w = column_widths(self.header_texts(), self.row_texts());
        let mut out: Vec<char> = Vec::new();
        push_row(&mut out, &self.headers, &ws);
        out.push('\n');
        push_separator(&mut out, &ws);
        out.push('\n');
        let ghost head = out@;
        assert(head == row_text(self.header_texts(), w) + seq!['\n'] + separator_text(w) + seq!['\n']);
        let n = self.rows.len();
        let mut j: usize = 0;
        while j < n
            invariant
                n == self.rows@.len(),
                j <= n,
                w == ws@.map_values(|x: usize| x as nat),
                out@ == head + rows_text(self.row_texts(), w, j as int),
            decreases n - j,
        {
            push_row(&mut out, &self.rows[j], &ws);
            out.push('\n');
            proof {
                assert(self.row_texts()[j as int] == views(self.rows@[j as int]@));
            }
            j += 1;
            assert(out@ =~= head + rows_text(self.row_texts(), w, j as int));
        }
        assert(self.row_texts().len() == n);
        string_from_chars(out.as_slice())
    }
}


/// An interface kind's label in its colour: physical cyan, Wi-Fi green,
/// loopback gray, the others plain.
pub open spec fn interface_type_text(ty: InterfaceType, enabled: bool) -> Seq<char> {
    match ty {
        InterfaceType::Physical => painted("\x1b[36m"@, ty.label(), enabled),
        InterfaceType::Wifi => painted("\x1b[32m"@, ty.label(), enabled),
        InterfaceType::Loopback => painted("\x1b[90m"@, ty.label(), enabled),
        _ => ty.label(),
    }
}

/// An interface kind's label in its colour (see [`interface_type_text`]).
pub fn interface_type_colored(ty: &InterfaceType, enabled: bool) -> (s: String)
    ensures
        s@ == interface_type_text(*ty, enabled),
{
    let text = ty.as_str();
    match ty {
        InterfaceType::Physical => cyan(text, enabled),
        InterfaceType::Wifi => green(text, enabled),
        InterfaceType::Loopback => gray(text, enabled),
        _ => text.to_owned(),
    }
}


// ------------------------------------------------------------------
// Listings
// ------------------------------------------------------------------

/// The headers of the interface listing.
pub open spec fn interface_headers() -> Seq<Seq<char>> {
    seq!["#"@, "网卡名称"@, "类型"@, "IP 地址"@, "推测网段"@, "网关"@, "推荐"@]
}

/// The cells of interface number `k` (from 0) in the listing.
pub open spec fn interface_cells(k: int, i: NetworkInterface, enabled: bool) -> Seq<Seq<char>> {
    seq![
        decimal((k + 1) as nat),
        i.name@,
        interface_type_text(i.iface_type, enabled),
        i.ip_address@,
        i.cidr@,
        match i.gateway {
            Some(g) => g@,
            None => "-"@,
        },
        if i.recommended {
            painted("\x1b[32m"@, "是"@, enabled)
        } else {
            painted("\x1b[90m"@, "可选"@, enabled)
        },
    ]
}

/// What the interface listing prints: a warning where there is no
/// interface, else the table and a hint.
pub open spec fn interfaces_text(ifs: Seq<NetworkInterface>, enabled: bool) -> Seq<char> {
    if ifs.len() == 0 {
        painted("\x1b[33m"@, "未扫描到可用网卡。"@, enabled) + "\n"@
    } else {
        table_text(interface_headers(), Seq::new(ifs.len(), |k: int| interface_cells(k, ifs[k], enabled)))
            + painted("\x1b[90m"@, "提示:"@, enabled) + " "@ + painted(
            "\x1b[90m"@,
            "标记为「是」的物理网卡 / Wi-Fi 通常是需要上报的真实网段。"@,
            enabled,
        ) + "\n"@
    }
}

/// The text of the interface listing (see [`interfaces_text`]).
pub fn interfaces_report(interfaces: &[NetworkInterface], enabled: bool) -> (s: String)
    ensures
        s@ == interfaces_text(interfaces@, enabled),
{
    if interfaces.len() == 0 {
        let mut v = chars_of(yellow("未扫描到可用网卡。", enabled).as_str());
        push_str(&mut v, "\n");
        return string_from_chars(v.as_slice());
    }
    let headers: [&str; 7] = ["#", "网卡名称", "类型", "IP 地址", "推测网段", "网关", "推荐"];
    let mut table = Table::new(&headers);
    assert(table.header_texts() =~= interface_headers());
    let n = interfaces.len();
    let mut k: usize = 0;
    while k < n
        invariant
            n == interfaces@.len(),
            k <= n,
            table.header_texts() == interface_headers(),
            table.row_texts() == Seq::new(k as nat, |j: int| interface_cells(j, interfaces@[j], enabled)),
        decreases n - k,
    {
        let f = &interfaces[k];
        let gateway = match &f.gateway {
            Some(g) => g.clone(),
            None => "-".to_owned(),
        };
        let mark = if f.recommended {
            green("是", enabled)
        } else {
            gray("可选", enabled)
        };
        let cells = vec![
            decimal_string((k + 1) as u64),
            f.name.clone(),
            interface_type_colored(&f.iface_type, enabled),
            f.ip_address.clone(),
            f.cidr.clone(),
            gateway,
            mark,
        ];
        let ghost before = table.row_texts();
        table.add_row(cells.as_slice());
        proof {
            let r = table.row_texts().last();
            assert(r =~= interface_cells(k as int, interfaces@[k as int], enabled));
            assert(table.row_texts() =~= Seq::new(
                (k + 1) as nat,
                |j: int| interface_cells(j, interfaces@[j], enabled),
            ));
        }
        k += 1;
    }
    let mut v = chars_of(table.render().as_str());
    push_str(&mut v, gray("提示:", enabled).as_str());
    push_str(&mut v, " ");
    push_str(&mut v, gray("标记为「是」的物理网卡 / Wi-Fi 通常是需要上报的真实网段。", enabled).as_str());
    push_str(&mut v, "\n");
    string_from_chars(v.as_slice())
}


/// The headers of the listing of reported segments.
pub open spec fn reported_headers() -> Seq<Seq<char>> {
    seq!["#"@, "网段名称"@, "真实网段"@, "映射网段"@, "状态"@]
}

/// A segment status's label in its colour (as [`segment_status_colored`]
/// writes it).
pub open spec fn segment_status_text(status: SegmentStatus, enabled: bool) -> Seq<char> {
    match status {
        SegmentStatus::Active => painted("\x1b[32m"@, "已激活"@, enabled),
        SegmentStatus::Pending => painted("\x1b[33m"@, "待激活"@, enabled),
        SegmentStatus::Disabled => painted("\x1b[90m"@, "已禁用"@, enabled),
        SegmentStatus::Error => painted("\x1b[31m"@, "错误"@, enabled),
    }
}

/// The cells of reported segment number `k` (from 0).
pub open spec fn reported_cells(k: int, seg: SegmentSummary, enabled: bool) -> Seq<Seq<char>> {
    seq![
        decimal((k + 1) as nat),
        seg.name@,
        seg.real_cidr@,
        match seg.mapped_cidr {
            Some(m) => m@,
            None => "未分配"@,
        },
        segment_status_text(seg.status, enabled),
    ]
}

/// What the listing of reported segments prints: a hint where there is
/// none, else the table.
pub open spec fn reported_text(segs: Seq<SegmentSummary>, enabled: bool) -> Seq<char> {
    if segs.len() == 0 {
        painted("\x1b[33m"@, "尚未上报任何网段，输入 add 添加。"@, enabled) + "\n"@
    } else {
        table_text(reported_headers(), Seq::new(segs.len(), |k: int| reported_cells(k, segs[k], enabled)))
    }
}

/// The text of the listing of reported segments (see [`reported_text`]).
pub fn reported_segments_report(segments: &[SegmentSummary], enabled: bool) -> (s: String)
    ensures
        s@ == reported_text(segments@, enabled),
{
    if segments.len() == 0 {
        let mut v = chars_of(yellow("尚未上报任何网段，输入 add 添加。", enabled).as_str());
        push_str(&mut v, "\n");
        return string_from_chars(v.as_slice());
    }
    let headers: [&str; 5] = ["#", "网段名称", "真实网段", "映射网段", "状态"];
    let mut table = Table::new(&headers);
    assert(table.header_texts() =~= reported_headers());
    let n = segments.len();
    let mut k: usize = 0;
    while k < n
        invariant
            n == segments@.len(),
            k <= n,
            table.header_texts() == reported_headers(),
            table.row_texts() == Seq::new(k as nat, |j: int| reported_cells(j, segments@[j], enabled)),
        decreases n - k,
    {
        let seg = &segments[k];
        let mapped = match &seg.mapped_cidr {
            Some(m) => m.clone(),
            None => "未分配".to_owned(),
        };
        let cells = vec![
            decimal_string((k + 1) as u64),
            seg.name.clone(),
            seg.real_cidr.clone(),
            mapped,
            segment_status_colored(&seg.status, enabled),
        ];
        table.add_row(cells.as_slice());
        proof {
            assert(table.row_texts().last() =~= reported_cells(k as int, segments@[k as int], enabled));
            assert(table.row_texts() =~= Seq::new(
                (k + 1) as nat,
                |j: int| reported_cells(j, segments@[j], enabled),
            ));
        }
        k += 1;
    }
    table.render()
}

/// The headers of the listing of accessible segments.
pub open spec fn accessible_headers() -> Seq<Seq<char>> {
    seq!["#"@, "客户/节点"@, "网段名称"@, "真实网段"@, "映射网段"@]
}

/// The cells of accessible segment number `k` (from 0).
pub open spec fn accessible_cells(k: int, seg: RouteEntry) -> Seq<Seq<char>> {
    seq![decimal((k + 1) as nat), seg.target_node_name@, seg.segment_name@, seg.real_cidr@, seg.mapped_cidr@]
}

/// What the listing of accessible segments prints: a note where there is
/// none, else the table.
pub open spec fn accessible_text(segs: Seq<RouteEntry>, enabled: bool) -> Seq<char> {
    if segs.len() == 0 {
        painted("\x1b[33m"@, "当前没有可访问的网段。"@, enabled) + "\n"@
    } else {
        table_text(accessible_headers(), Seq::new(segs.len(), |k: int| accessible_cells(k, segs[k])))
    }
}

/// The text of the listing of accessible segments (see
/// [`accessible_text`]).
pub fn accessible_segments_report(segments: &[RouteEntry], enabled: bool) -> (s: String)
    ensures
        s@ == accessible_text(segments@, enabled),
{
    if segments.len() == 0 {
        let mut v = chars_of(yellow("当前没有可访问的网段。", enabled).as_str());
        push_str(&mut v, "\n");
        return string_from_chars(v.as_slice());
    }
    let headers: [&str; 5] = ["#", "客户/节点", "网段名称", "真实网段", "映射网段"];
    let mut table = Table::new(&headers);
    assert(table.header_texts() =~= accessible_headers());
    let n = segments.len();
    let mut k: usize = 0;
    while k < n
        invariant
            n == segments@.len(),
            k <= n,
            table.header_texts() == accessible_headers(),
            table.row_texts() == Seq::new(k as nat, |j: int| accessible_cells(j, segments@[j])),
        decreases n - k,
    {
        let seg = &segments[k];
        let cells = vec![
            decimal_string((k + 1) as u64),
            seg.target_node_name.clone(),
            seg.segment_name.clone(),
            seg.real_cidr.clone(),
            seg.mapped_cidr.clone(),
        ];
        table.add_row(cells.as_slice());
        proof {
            assert(table.row_texts().last() =~= accessible_cells(k as int, segments@[k as int]));
            assert(table.row_texts() =~= Seq::new((k + 1) as nat, |j: int| accessible_cells(j, segments@[j])));
        }
        k += 1;
    }
    table.render()
}

/// The line that shows one segment's mapping: `  real <-> mapped`, the
/// real segment cyan, the arrow gray, the mapped segment green.
pub fn segment_mapping_line(real_cidr: &str, mapped_cidr: &str, enabled: bool) -> (s: String)
    ensures
        s@ == "  "@ + painted("\x1b[36m"@, real_cidr@, enabled) + " "@ + painted("\x1b[90m"@, "<->"@, enabled)
            + " "@ + painted("\x1b[32m"@, mapped_cidr@, enabled),
{
    let mut v: Vec<char> = Vec::new();
    push_str(&mut v, "  ");
    push_str(&mut v, cyan(real_cidr, enabled).as_str());
    push_str(&mut v, " ");
    push_str(&mut v, gray("<->", enabled).as_str());
    push_str(&mut v, " ");
    push_str(&mut v, green(mapped_cidr, enabled).as_str());
    string_from_chars(v.as_slice())
}

/// `n` copies of `c`.
fn repeated(c: char, n: usize) -> (s: String)
    ensures
        s@ == repeat(c, n as nat),
{
    let mut v: Vec<char> = Vec::new();
    push_repeat(&mut v, c, n);
    assert(v@ =~= repeat(c, n as nat));
    string_from_chars(v.as_slice())
}

/// The banner of a title: a blank line, then the title between two bold
/// rules of `=` eight longer than the title, then a blank line.
pub fn banner_text(title: &str, enabled: bool) -> (s: String)
    requires
        title@.len() + 8 <= usize::MAX,
    ensures
        s@ == "\n"@ + painted("\x1b[1m"@, repeat('=', title@.len() + 8), enabled) + " "@ + painted(
            "\x1b[1m"@,
            title@,
            enabled,
        ) + " "@ + painted("\x1b[1m"@, repeat('=', title@.len() + 8), enabled) + "\n"@,
{
    let n = chars_of(title).len();
    let line = repeated('=', n + 8);
    let rule = bold(line.as_str(), enabled);
    let mut v: Vec<char> = Vec::new();
    push_str(&mut v, "\n");
    push_str(&mut v, rule.as_str());
    push_str(&mut v, " ");
    push_str(&mut v, bold(title, enabled).as_str());
    push_str(&mut v, " ");
    push_str(&mut v, rule.as_str());
    push_str(&mut v, "\n");
    string_from_chars(v.as_slice())
}


/// The line of one diagnostic item: `[OK]` green or `[FAIL]` red, the
/// name, the time in milliseconds and the detail.
pub fn diag_line(item: &DiagItem, enabled: bool) -> (s: String)
    ensures
        s@ == (if item.ok {
            painted("\x1b[32m"@, "[OK]"@, enabled)
        } else {
            painted("\x1b[31m"@, "[FAIL]"@, enabled)
        }) + " "@ + item.name@ + " ("@ + decimal(item.elapsed_ms as nat) + " ms) - "@ + item.detail@,
{
    let mark = if item.ok {
        green("[OK]", enabled)
    } else {
        red("[FAIL]", enabled)
    };
    let mut v = chars_of(mark.as_str());
    push_str(&mut v, " ");
    push_str(&mut v, item.name.as_str());
    push_str(&mut v, " (");
    push_decimal_u128(&mut v, item.elapsed_ms);
    push_str(&mut v, " ms) - ");
    push_str(&mut v, item.detail.as_str());
    string_from_chars(v.as_slice())
}

/// `是` or `否`.
pub open spec fn yes_no(b: bool) -> Seq<char> {
    if b {
        "是"@
    } else {
        "否"@
    }
}

/// What showing a node's configuration prints, with the configuration
/// file's path.
pub open spec fn config_text(cfg: ClientConfig, path: Seq<char>) -> Seq<char> {
    "---- 当前配置 ----\n"@ + "服务端地址 : "@ + cfg.server_addr@ + "\n"@ + "节点名称   : "@ + cfg.node_name@
        + "\n"@ + "节点角色   : "@ + role_label(cfg.role) + "\n"@ + "备注       : "@ + match cfg.remark {
        Some(r) => r@,
        None => Seq::empty(),
    } + "\n"@ + "自动重连   : "@ + yes_no(cfg.auto_reconnect) + "\n"@ + "开机自启   : "@ + yes_no(cfg.auto_start)
        + "\n"@ + "日志级别   : "@ + cfg.log_level@ + "\n"@ + "配置文件   : "@ + path + "\n"@
        + "------------------\n"@
}

/// The text that shows a node's configuration (see [`config_text`]).
pub fn config_report(cfg: &ClientConfig, path: &str) -> (s: String)
    ensures
        s@ == config_text(*cfg, path@),
{
    let mut v: Vec<char> = Vec::new();
    push_str(&mut v, "---- 当前配置 ----\n");
    push_str(&mut v, "服务端地址 : ");
    push_str(&mut v, cfg.server_addr.as_str());
    push_str(&mut v, "\n");
    push_str(&mut v, "节点名称   : ");
    push_str(&mut v, cfg.node_name.as_str());
    push_str(&mut v, "\n");
    push_str(&mut v, "节点角色   : ");
    push_str(&mut v, role_name(&cfg.role));
    push_str(&mut v, "\n");
    push_str(&mut v, "备注       : ");
    match &cfg.remark {
        Some(r) => push_str(&mut v, r.as_str()),
        None => {},
    }
    push_str(&mut v, "\n");
    push_str(&mut v, "自动重连   : ");
    push_str(&mut v, if cfg.auto_reconnect { "是" } else { "否" });
    push_str(&mut v, "\n");
    push_str(&mut v, "开机自启   : ");
    push_str(&mut v, if cfg.auto_start { "是" } else { "否" });
    push_str(&mut v, "\n");
    push_str(&mut v, "日志级别   : ");
    push_str(&mut v, cfg.log_level.as_str());
    push_str(&mut v, "\n");
    push_str(&mut v, "配置文件   : ");
    push_str(&mut v, path);
    push_str(&mut v, "\n");
    push_str(&mut v, "------------------\n");
    assert(v@ =~= config_text(*cfg, path@));
    string_from_chars(v.as_slice())
}

} // verus!
