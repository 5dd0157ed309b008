use crossterm::cursor::{MoveToNextLine, MoveToPreviousLine};
use crossterm::terminal::{Clear, ClearType};
use crossterm::Command;
use vstd::prelude::*;
use vstd::string::StringExecFns;

use crate::order::{key_lt, lemma_key_lt_irreflexive, lemma_key_lt_transitive};
use crate::record::{activity_label, last_status, last_status_label, RecordView, StatusRecord};
use crate::snapshot::{as_map, holds_id, ids_sorted, lemma_map_at, Snapshot};
use crate::text::{
    decimal, decimal_string, left_fitted, push_left_fitted, push_right_aligned, right_aligned,
};

verus! {

/// Width of the worker identity column.
pub const ID_WIDTH: usize = 36;

/// Width of every other column.
pub const COLUMN_WIDTH: usize = 16;

/// Largest count a cursor movement can carry.
pub const MAX_CURSOR_MOVE: usize = 65535;

/// A control sequence: ESC, `[`, then `tail`.
pub open spec fn csi(tail: Seq<char>) -> Seq<char> {
    seq!['\u{1b}', '['] + tail
}

/// Clears the line the cursor is on.
pub open spec fn clear_line_seq() -> Seq<char> {
    csi(seq!['2', 'K'])
}

/// Moves the cursor down `n` lines, to the first column.
pub open spec fn next_line_seq(n: nat) -> Seq<char> {
    csi(decimal(n).push('E'))
}

/// Moves the cursor up `n` lines, to the first column.
pub open spec fn previous_line_seq(n: nat) -> Seq<char> {
    csi(decimal(n).push('F'))
}

/// Relies on crossterm's `Clear(ClearType::CurrentLine)`, whose ANSI form is CSI "2K".
#[verifier::external_body]
fn clear_line_code() -> (r: String)
    ensures
        r@ == clear_line_seq(),
{
    let mut s = String::new();
    let _ = Clear(ClearType::CurrentLine).write_ansi(&mut s);
    s
}

/// Relies on crossterm's `MoveToNextLine(n)`, whose ANSI form is CSI, `n` in decimal, "E".
#[verifier::external_body]
fn next_line_code(n: u16) -> (r: String)
    ensures
        r@ == next_line_seq(n as nat),
{
    let mut s = String::new();
    let _ = MoveToNextLine(n).write_ansi(&mut s);
    s
}

/// Relies on crossterm's `MoveToPreviousLine(n)`, whose ANSI form is CSI, `n` in decimal, "F".
#[verifier::external_body]
fn previous_line_code(n: u16) -> (r: String)
    ensures
        r@ == previous_line_seq(n as nat),
{
    let mut s = String::new();
    let _ = MoveToPreviousLine(n).write_ansi(&mut s);
    s
}

/// Column separator.
pub open spec fn sep() -> Seq<char> {
    seq![' ']
}

/// The header line naming the columns.
pub open spec fn header_text() -> Seq<char> {
    left_fitted("Worker ID"@, ID_WIDTH as nat) + sep() + right_aligned("Used Memory"@, COLUMN_WIDTH as nat)
        + sep() + right_aligned("Total Memory"@, COLUMN_WIDTH as nat) + sep() + right_aligned(
        "Used Swap"@,
        COLUMN_WIDTH as nat,
    ) + sep() + right_aligned("Total Swap"@, COLUMN_WIDTH as nat) + sep() + right_aligned(
        "Nb. CPUs"@,
        COLUMN_WIDTH as nat,
    ) + sep() + right_aligned("Activity"@, COLUMN_WIDTH as nat) + sep() + right_aligned(
        "Status"@,
        COLUMN_WIDTH as nat,
    ) + seq!['\n']
}

/// One table row for a worker.
pub open spec fn row_text(r: RecordView) -> Seq<char> {
    left_fitted(r.worker_id, ID_WIDTH as nat) + sep() + right_aligned(
        decimal(r.used_memory as nat),
        COLUMN_WIDTH as nat,
    ) + sep() + right_aligned(decimal(r.total_memory as nat), COLUMN_WIDTH as nat) + sep()
        + right_aligned(decimal(r.used_swap as nat), COLUMN_WIDTH as nat) + sep() + right_aligned(
        decimal(r.total_swap as nat),
        COLUMN_WIDTH as nat,
    ) + sep() + right_aligned(decimal(r.processors as nat), COLUMN_WIDTH as nat) + sep()
        + right_aligned(activity_label(r.activity), COLUMN_WIDTH as nat) + sep() + right_aligned(
        last_status_label(r.job_status),
        COLUMN_WIDTH as nat,
    ) + seq!['\n']
}

/// The rows, one line per worker, in the order given.
pub open spec fn rows_text(rows: Seq<RecordView>) -> Seq<char>
    decreases rows.len(),
{
    if rows.len() == 0 {
        Seq::empty()
    } else {
        rows_text(rows.drop_last()) + row_text(rows.last())
    }
}

/// `k` cleared lines, each followed by a move to the next line.
pub open spec fn blank_text(k: nat) -> Seq<char>
    decreases k,
{
    if k == 0 {
        Seq::empty()
    } else {
        blank_text((k - 1) as nat) + clear_line_seq() + next_line_seq(1)
    }
}

/// Lines to clear below `n` rows when `max_rows` rows were shown before.
pub open spec fn blank_count(max_rows: nat, n: nat) -> nat {
    if max_rows > n {
        (max_rows - n) as nat
    } else {
        0
    }
}

/// The larger of the two.
pub open spec fn max_nat(a: nat, b: nat) -> nat {
    if a >= b {
        a
    } else {
        b
    }
}

/// Move back up over `lines` lines, in continuous mode and when a line was written.
pub open spec fn cursor_return(lines: nat, continuous: bool) -> Seq<char> {
    if continuous && lines > 0 {
        previous_line_seq(if lines > MAX_CURSOR_MOVE { MAX_CURSOR_MOVE as nat } else { lines })
    } else {
        Seq::empty()
    }
}

/// Everything one render writes: the rows, the blank lines that erase rows of
/// workers that stopped reporting, and in continuous mode the cursor move back
/// to the first row.
pub open spec fn frame_text(rows: Seq<RecordView>, max_rows: nat, continuous: bool) -> Seq<char> {
    rows_text(rows) + blank_text(blank_count(max_rows, rows.len())) + cursor_return(
        max_nat(max_rows, rows.len()),
        continuous,
    )
}

/// The header line.
pub fn header_line() -> (r: String)
    ensures
        r@ == header_text(),
{
    let mut s = String::new();
    push_left_fitted(&mut s, "Worker ID", ID_WIDTH);
    s.append(" ");
    push_right_aligned(&mut s, "Used Memory", COLUMN_WIDTH);
    s.append(" ");
    push_right_aligned(&mut s, "Total Memory", COLUMN_WIDTH);
    s.append(" ");
    push_right_aligned(&mut s, "Used Swap", COLUMN_WIDTH);
    s.append(" ");
    push_right_aligned(&mut s, "Total Swap", COLUMN_WIDTH);
    s.append(" ");
    push_right_aligned(&mut s, "Nb. CPUs", COLUMN_WIDTH);
    s.append(" ");
    push_right_aligned(&mut s, "Activity", COLUMN_WIDTH);
    s.append(" ");
    push_right_aligned(&mut s, "Status", COLUMN_WIDTH);
    s.append("\n");
    proof {
        reveal_strlit(" ");
        reveal_strlit("\n");
    }
    assert(s@ =~= header_text());
    s
}

/// The table row of one record.
pub fn format_row(rec: &StatusRecord) -> (r: String)
    ensures
        r@ == row_text(rec@),
{
    let mut s = String::new();
    push_left_fitted(&mut s, rec.worker_id.as_str(), ID_WIDTH);
    s.append(" ");
    push_right_aligned(&mut s, decimal_string(rec.used_memory).as_str(), COLUMN_WIDTH);
    s.append(" ");
    push_right_aligned(&mut s, decimal_string(rec.total_memory).as_str(), COLUMN_WIDTH);
    s.append(" ");
    push_right_aligned(&mut s, decimal_string(rec.used_swap).as_str(), COLUMN_WIDTH);
    s.append(" ");
    push_right_aligned(&mut s, decimal_string(rec.total_swap).as_str(), COLUMN_WIDTH);
    s.append(" ");
    push_right_aligned(&mut s, decimal_string(rec.processors).as_str(), COLUMN_WIDTH);
    s.append(" ");
    push_right_aligned(&mut s, rec.activity.label(), COLUMN_WIDTH);
    s.append(" ");
    push_right_aligned(&mut s, last_status(rec.job_status), COLUMN_WIDTH);
    s.append("\n");
    proof {
        reveal_strlit(" ");
        reveal_strlit("\n");
    }
    assert(s@ =~= row_text(rec@));
    s
}

/// What the renderer remembers between redraws of one watch session.
pub struct DisplayState {
    /// Most rows drawn so far in the session.
    pub max_rows: usize,
}

impl DisplayState {
    /// State at the start of a session: nothing drawn yet.
    pub fn new() -> (r: DisplayState)
        ensures
            r.max_rows == 0,
    {
        DisplayState { max_rows: 0 }
    }

    /// Number of blank lines to clear below `n` rows.
    pub fn blank_lines(&self, n: usize) -> (r: usize)
        ensures
            r == blank_count(self.max_rows as nat, n as nat),
    {
        if self.max_rows > n {
            self.max_rows - n
        } else {
            0
        }
    }

    /// Renders the snapshot: one row per worker in identity order, then blank
    /// lines down to the most rows drawn before, then (in continuous mode) the
    /// move back up to the first row. Records the new most rows drawn.
    pub fn render(&mut self, snapshot: &Snapshot, continuous: bool) -> (r: String)
        ensures
            r@ == frame_text(snapshot@, old(self).max_rows as nat, continuous),
            final(self).max_rows == max_nat(old(self).max_rows as nat, snapshot@.len()),
    {
        let n = snapshot.len();
        let mut out = String::new();
        let mut i: usize = 0;
        while i < n
            invariant
                n == snapshot@.len(),
                i <= n,
                out@ == rows_text(snapshot@.take(i as int)),
            decreases n - i,
        {
            let row = format_row(snapshot.row(i));
            out.append(row.as_str());
            assert(snapshot@.take(i + 1).drop_last() =~= snapshot@.take(i as int));
            i = i + 1;
        }
        assert(snapshot@.take(n as int) =~= snapshot@);
        let blanks = self.blank_lines(n);
        let clear = clear_line_code();
        let next = next_line_code(1);
        let mut j: usize = 0;
        while j < blanks
            invariant
                j <= blanks,
                clear@ == clear_line_seq(),
                next@ == next_line_seq(1),
                out@ == rows_text(snapshot@) + blank_text(j as nat),
            decreases blanks - j,
        {
            out.append(clear.as_str());
            out.append(next.as_str());
            assert(out@ =~= rows_text(snapshot@) + blank_text((j + 1) as nat));
            j = j + 1;
        }
        let total = if self.max_rows > n {
            self.max_rows
        } else {
            n
        };
        self.max_rows = total;
        if continuous && total > 0 {
            let lines: u16 = if total > MAX_CURSOR_MOVE {
                65535
            } else {
                total as u16
            };
            let up = previous_line_code(lines);
            out.append(up.as_str());
        }
        assert(out@ =~= frame_text(snapshot@, old(self).max_rows as nat, continuous));
        out
    }
}

proof fn lemma_map_drop_first(rows: Seq<RecordView>)
    requires
        ids_sorted(rows),
        rows.len() > 0,
    ensures
        ids_sorted(rows.drop_first()),
        as_map(rows.drop_first()) == as_map(rows).remove(rows[0].worker_id),
{
    let t = rows.drop_first();
    assert(ids_sorted(t)) by {
        assert forall|a: int, b: int| 0 <= a < b < t.len() implies key_lt(
            #[trigger] t[a].worker_id,
            #[trigger] t[b].worker_id,
        ) by {
            assert(key_lt(rows[a + 1].worker_id, rows[b + 1].worker_id));
        }
    }
    let m = as_map(rows).remove(rows[0].worker_id);
    assert forall|k: Seq<char>| #[trigger] as_map(t).contains_key(k) == m.contains_key(k) by {
        if holds_id(t, k) {
            let j = choose|j: int| 0 <= j < t.len() && #[trigger] t[j].worker_id == k;
            assert(rows[j + 1].worker_id == k);
            assert(key_lt(rows[0].worker_id, rows[j + 1].worker_id));
            lemma_key_lt_irreflexive(k);
        }
        if holds_id(rows, k) && k != rows[0].worker_id {
            let j = choose|j: int| 0 <= j < rows.len() && #[trigger] rows[j].worker_id == k;
            assert(t[j - 1].worker_id == k);
        }
    }
    assert forall|k: Seq<char>| #[trigger] as_map(t).contains_key(k) implies as_map(t)[k] == m[k] by {
        let j = choose|j: int| 0 <= j < t.len() && #[trigger] t[j].worker_id == k;
        lemma_map_at(t, j);
        lemma_map_at(rows, j + 1);
    }
    assert(as_map(t) =~= m);
}

/// Rows sorted by identity are fixed by the map they hold.
proof fn lemma_sorted_rows_unique(a: Seq<RecordView>, b: Seq<RecordView>)
    requires
        ids_sorted(a),
        ids_sorted(b),
        as_map(a) == as_map(b),
    ensures
        a == b,
    decreases a.len(),
{
    if a.len() == 0 {
        if b.len() > 0 {
            lemma_map_at(b, 0);
        }
        assert(a =~= b);
    } else if b.len() == 0 {
        lemma_map_at(a, 0);
    } else {
        let ka = a[0].worker_id;
        let kb = b[0].worker_id;
        lemma_map_at(a, 0);
        lemma_map_at(b, 0);
        let ja = choose|j: int| 0 <= j < b.len() && #[trigger] b[j].worker_id == ka;
        let jb = choose|j: int| 0 <= j < a.len() && #[trigger] a[j].worker_id == kb;
        if ja > 0 && jb > 0 {
            assert(key_lt(kb, ka));
            assert(key_lt(ka, kb));
            lemma_key_lt_transitive(ka, kb, ka);
            lemma_key_lt_irreflexive(ka);
        }
        assert(ka == kb);
        assert(a[0] == b[0]);
        lemma_map_drop_first(a);
        lemma_map_drop_first(b);
        lemma_sorted_rows_unique(a.drop_first(), b.drop_first());
        assert(a =~= seq![a[0]] + a.drop_first());
        assert(b =~= seq![b[0]] + b.drop_first());
    }
}

/// Rendering is deterministic: two snapshots that hold the same records, however
/// and in whatever order they were merged, render byte-identical frames from the
/// same display state.
pub proof fn lemma_render_deterministic(
    a: Seq<RecordView>,
    b: Seq<RecordView>,
    max_rows: nat,
    continuous: bool,
)
    requires
        ids_sorted(a),
        ids_sorted(b),
        as_map(a) == as_map(b),
    ensures
        frame_text(a, max_rows, continuous) == frame_text(b, max_rows, continuous),
{
    lemma_sorted_rows_unique(a, b);
}

/// The number of blank lines cleared is the number of rows shown before that the
/// current snapshot no longer fills.
pub proof fn lemma_blank_lines_fill_previous_rows(max_rows: nat, n: nat)
    ensures
        n + blank_count(max_rows, n) == max_nat(max_rows, n),
        max_rows >= n ==> blank_count(max_rows, n) == max_rows - n,
{
}

} // verus!
