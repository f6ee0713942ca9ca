//! The memory map report: a table of every region with running totals, paced in pages.
use vstd::prelude::*;
use vstd::string::StringExecFns;
use crate::text::{hex_fixed, push_hex, push_str};
use crate::size::{format_size, size_text};
use crate::region::{MemoryRegion, CONVENTIONAL, is_conventional, region_row, row_text};

verus! {

/// Rows shown between two pauses.
pub const ROWS_PER_PAGE: usize = 39;

/// One thing the report asks its caller to do.
#[derive(Debug, PartialEq, Eq)]
pub enum Step {
    /// Print the text and end the line.
    Print(String),
    /// Wait until a key is pressed.
    WaitForKey,
}

/// The mathematical form of a `Step`.
pub enum StepView {
    Print(Seq<char>),
    WaitForKey,
}

impl View for Step {
    type V = StepView;

    open spec fn view(&self) -> StepView {
        match self {
            Step::Print(s) => StepView::Print(s@),
            Step::WaitForKey => StepView::WaitForKey,
        }
    }
}

/// The views of a list of steps.
pub open spec fn steps_view(v: Seq<Step>) -> Seq<StepView> {
    v.map_values(|x: Step| x@)
}

/// The sum of the page counts of all regions.
pub open spec fn total_pages(s: Seq<MemoryRegion>) -> nat
    decreases s.len(),
{
    if s.len() == 0 {
        0
    } else {
        total_pages(s.drop_last()) + s.last().page_count as nat
    }
}

/// The sum of the page counts of the conventional regions.
pub open spec fn usable_pages(s: Seq<MemoryRegion>) -> nat
    decreases s.len(),
{
    if s.len() == 0 {
        0
    } else {
        usable_pages(s.drop_last()) + if s.last().ty == CONVENTIONAL {
            s.last().page_count as nat
        } else {
            0
        }
    }
}

/// Whether the row at index `i` is preceded by a pause.
pub open spec fn is_page_break(i: int) -> bool {
    i != 0 && i % 39 == 0
}

/// The steps for the first `n` rows of the table.
pub open spec fn row_steps(s: Seq<MemoryRegion>, n: nat) -> Seq<StepView>
    decreases n,
{
    if n == 0 {
        Seq::empty()
    } else {
        let i = n - 1;
        row_steps(s, (n - 1) as nat) + (if is_page_break(i) {
            seq![StepView::Print("--- MORE ---"@), StepView::WaitForKey]
        } else {
            Seq::empty()
        }) + seq![StepView::Print(row_text(s[i]))]
    }
}

/// The title and the column headings.
pub open spec fn header_steps() -> Seq<StepView> {
    seq![
        StepView::Print("Memory map:"@),
        StepView::Print("Physical Addr    Virtual Addr     Num Pages    Size     Type"@),
    ]
}

/// The line with both totals.
pub open spec fn totals_text(total: nat, usable: nat) -> Seq<char> {
    "Total: "@ + size_text(total) + ", Usable: "@ + size_text(usable)
}

/// The whole report on a snapshot: the header, every row in snapshot order with a pause
/// before each row whose index is a non-zero multiple of the page length, the end marker,
/// the totals, and an empty line.
pub open spec fn report_steps(s: Seq<MemoryRegion>) -> Seq<StepView> {
    header_steps() + row_steps(s, s.len()) + seq![
        StepView::Print("--- END ---"@),
        StepView::Print(totals_text(total_pages(s), usable_pages(s))),
        StepView::Print(Seq::empty()),
    ]
}

/// The number of pauses among `steps`.
pub open spec fn wait_count(steps: Seq<StepView>) -> nat
    decreases steps.len(),
{
    if steps.len() == 0 {
        0
    } else {
        wait_count(steps.drop_last()) + if steps.last() is WaitForKey {
            1nat
        } else {
            0nat
        }
    }
}

/// The total and the usable page counts of a snapshot.
pub fn page_totals(map: &Vec<MemoryRegion>) -> (r: (u128, u128))
    ensures
        r.0 == total_pages(map@),
        r.1 == usable_pages(map@),
{
    let mut total: u128 = 0;
    let mut usable: u128 = 0;
    let mut i: usize = 0;
    while i < map.len()
        invariant
            i <= map.len(),
            total == total_pages(map@.subrange(0, i as int)),
            usable == usable_pages(map@.subrange(0, i as int)),
            usable <= total,
            total <= i * 0xffff_ffff_ffff_ffffu64,
        decreases map.len() - i,
    {
        let r = map[i];
        assert(map@.subrange(0, i + 1).drop_last() =~= map@.subrange(0, i as int));
        assert(total + r.page_count <= (i + 1) * 0xffff_ffff_ffff_ffffu64) by (nonlinear_arith)
            requires
                total <= i * 0xffff_ffff_ffff_ffffu64,
                r.page_count <= 0xffff_ffff_ffff_ffffu64,
        ;
        assert((i + 1) * 0xffff_ffff_ffff_ffffu64 <= 0x1_0000_0000_0000_0000 * 0xffff_ffff_ffff_ffffu64)
            by (nonlinear_arith)
            requires
                i < 0x1_0000_0000_0000_0000int,
        ;
        total = total + r.page_count as u128;
        if is_conventional(&r) {
            usable = usable + r.page_count as u128;
        }
        i = i + 1;
    }
    assert(map@.subrange(0, i as int) =~= map@);
    (total, usable)
}

/// The line with both totals.
pub fn totals_line(total: u128, usable: u128) -> (s: String)
    ensures
        s@ == totals_text(total as nat, usable as nat),
{
    let mut s = String::from_str("Total: ");
    let t = format_size(total);
    push_str(&mut s, t.as_str());
    push_str(&mut s, ", Usable: ");
    let u = format_size(usable);
    push_str(&mut s, u.as_str());
    s
}

/// The report on a snapshot, as the lines to print and the pauses between them.
pub fn memory_map_report(map: &Vec<MemoryRegion>) -> (r: Vec<Step>)
    ensures
        steps_view(r@) == report_steps(map@),
{
    let mut out: Vec<Step> = Vec::new();
    out.push(Step::Print(String::from_str("Memory map:")));
    out.push(
        Step::Print(String::from_str("Physical Addr    Virtual Addr     Num Pages    Size     Type")),
    );
    assert(steps_view(out@) =~= header_steps());
    let mut i: usize = 0;
    while i < map.len()
        invariant
            i <= map.len(),
            steps_view(out@) == header_steps() + row_steps(map@, i as nat),
        decreases map.len() - i,
    {
        let ghost before = out@;
        let ghost brk: Seq<StepView> = if is_page_break(i as int) {
            seq![StepView::Print("--- MORE ---"@), StepView::WaitForKey]
        } else {
            Seq::empty()
        };
        if i != 0 && i % ROWS_PER_PAGE == 0 {
            let more = String::from_str("--- MORE ---");
            out.push(Step::Print(more));
            out.push(Step::WaitForKey);
        }
        assert(steps_view(out@) =~= steps_view(before) + brk);
        let ghost mid = out@;
        let row = region_row(&map[i]);
        out.push(Step::Print(row));
        assert(steps_view(out@) =~= steps_view(mid) + seq![StepView::Print(row_text(map@[i as int]))]);
        assert(steps_view(out@) =~= header_steps() + row_steps(map@, (i + 1) as nat));
        i = i + 1;
    }
    let (total, usable) = page_totals(map);
    out.push(Step::Print(String::from_str("--- END ---")));
    out.push(Step::Print(totals_line(total, usable)));
    out.push(Step::Print(String::new()));
    assert(steps_view(out@) =~= report_steps(map@));
    out
}

/// The line that introduces the lookup of an address: `label is located at <address>, section:`.
pub fn location_heading(label: &str, addr: u64) -> (s: String)
    ensures
        s@ == label@ + " is located at "@ + hex_fixed(addr as nat, 16) + ", section:"@,
{
    let mut s = String::from_str(label);
    push_str(&mut s, " is located at ");
    push_hex(&mut s, addr, 16);
    push_str(&mut s, ", section:");
    s
}

/// The report is a function of the snapshot alone: two runs on the same snapshot give the
/// same steps, line for line.
pub proof fn lemma_report_deterministic(a: Seq<MemoryRegion>, b: Seq<MemoryRegion>)
    requires
        a == b,
    ensures
        report_steps(a) == report_steps(b),
{
}

proof fn lemma_wait_count_concat(a: Seq<StepView>, b: Seq<StepView>)
    ensures
        wait_count(a + b) == wait_count(a) + wait_count(b),
    decreases b.len(),
{
    if b.len() > 0 {
        assert((a + b).drop_last() =~= a + b.drop_last());
        lemma_wait_count_concat(a, b.drop_last());
    } else {
        assert(a + b =~= a);
    }
}

proof fn lemma_row_waits(s: Seq<MemoryRegion>, n: nat)
    ensures
        wait_count(row_steps(s, n)) == if n == 0 {
            0
        } else {
            ((n - 1) / 39) as nat
        },
    decreases n,
{
    if n > 0 {
        let i = n - 1;
        lemma_row_waits(s, (n - 1) as nat);
        let brk: Seq<StepView> = if is_page_break(i) {
            seq![StepView::Print("--- MORE ---"@), StepView::WaitForKey]
        } else {
            Seq::empty()
        };
        let row = seq![StepView::Print(row_text(s[i]))];
        lemma_wait_count_concat(row_steps(s, (n - 1) as nat) + brk, row);
        lemma_wait_count_concat(row_steps(s, (n - 1) as nat), brk);
        assert(wait_count(row) == 0) by {
            assert(row.drop_last() =~= Seq::<StepView>::empty());
        }
        reveal_with_fuel(wait_count, 3);
        if is_page_break(i) {
            assert(brk.drop_last() =~= seq![StepView::Print("--- MORE ---"@)]);
            assert(brk.drop_last().drop_last() =~= Seq::<StepView>::empty());
            assert(wait_count(brk) == 1);
        } else {
            assert(wait_count(brk) == 0);
        }
    }
}

/// A report pauses once before each row whose index is a non-zero multiple of the page
/// length: `(n - 1) / 39` times for `n > 0` regions, and never for an empty snapshot.
pub proof fn lemma_page_breaks(s: Seq<MemoryRegion>)
    ensures
        wait_count(report_steps(s)) == if s.len() == 0 {
            0
        } else {
            ((s.len() - 1) / 39) as nat
        },
{
    let tail = seq![
        StepView::Print("--- END ---"@),
        StepView::Print(totals_text(total_pages(s), usable_pages(s))),
        StepView::Print(Seq::empty()),
    ];
    lemma_row_waits(s, s.len());
    lemma_wait_count_concat(header_steps() + row_steps(s, s.len()), tail);
    lemma_wait_count_concat(header_steps(), row_steps(s, s.len()));
    let h = header_steps();
    reveal_with_fuel(wait_count, 4);
    assert(h.drop_last().drop_last() =~= Seq::<StepView>::empty());
    assert(wait_count(h) == 0);
    assert(tail.drop_last().drop_last().drop_last() =~= Seq::<StepView>::empty());
    assert(wait_count(tail) == 0);
}

} // verus!
