//! The console rendering of a script report: a JSON object whose scalar
//! fields are listed one per line and whose object fields are drawn as
//! nested tables.  Fields whose name starts with `full_` are left out of
//! the listing.  Terminal styling comes from the `console` crate.

use vstd::prelude::*;
use vstd::string::*;
use crate::text::{seq_starts_with, str_starts_with};

verus! {

/// A report value as the formatter reads it: an object with its fields in
/// order, or any other JSON value, carried as its compact JSON text and, for
/// a boolean, its truth value.
pub enum ReportValue {
    Object(Vec<(String, ReportValue)>),
    Scalar { text: String, boolean: Option<bool> },
}

/// `text` styled blue by `console` when `colors`, else unchanged.
pub open spec fn styled_blue(text: Seq<char>, colors: bool) -> Seq<char> {
    if colors { "\x1b[34m"@ + text + "\x1b[0m"@ } else { text }
}

/// `text` styled bold by `console` when `colors`, else unchanged.
pub open spec fn styled_bold(text: Seq<char>, colors: bool) -> Seq<char> {
    if colors { "\x1b[1m"@ + text + "\x1b[0m"@ } else { text }
}

/// `text` styled bold and green by `console` when `colors`, else unchanged.
pub open spec fn styled_bold_green(text: Seq<char>, colors: bool) -> Seq<char> {
    if colors { "\x1b[32m\x1b[1m"@ + text + "\x1b[0m"@ } else { text }
}

/// `console::style(text).blue()` displayed with styling forced to `colors`:
/// the blue foreground code, the text and the reset code, or the bare text.
#[verifier::external_body]
fn style_blue(text: &str, colors: bool) -> (r: String)
    ensures
        r@ == styled_blue(text@, colors),
{
    format!("{}", console::style(text).blue().force_styling(colors))
}

/// `console::style(text).bold()` displayed with styling forced to `colors`:
/// the bold code, the text and the reset code, or the bare text.
#[verifier::external_body]
fn style_bold(text: &str, colors: bool) -> (r: String)
    ensures
        r@ == styled_bold(text@, colors),
{
    format!("{}", console::style(text).bold().force_styling(colors))
}

/// `console::style(text).bold().green()` displayed with styling forced to
/// `colors`: the green foreground code, the bold code, the text and the reset
/// code, or the bare text.
#[verifier::external_body]
fn style_bold_green(text: &str, colors: bool) -> (r: String)
    ensures
        r@ == styled_bold_green(text@, colors),
{
    format!("{}", console::style(text).bold().green().force_styling(colors))
}

/// Fields named `full_...` are not listed.
pub open spec fn hidden_key(k: Seq<char>) -> bool {
    seq_starts_with(k, "full_"@)
}

/// How a scalar is shown inside a table: booleans with a mark, other
/// values as their JSON text.
pub open spec fn table_scalar(text: Seq<char>, boolean: Option<bool>) -> Seq<char> {
    match boolean {
        Some(true) => "✔ true"@,
        Some(false) => "✖ false"@,
        None => text,
    }
}

pub open spec fn table_head(key: Seq<char>, colors: bool) -> Seq<char> {
    "\n [* "@ + styled_bold_green(key, colors) + ":\n"@
}

/// The rows of a table, a nested table for each object field.
pub open spec fn table_rows(entries: Seq<(String, ReportValue)>, colors: bool) -> Seq<char>
    decreases entries,
{
    if entries.len() == 0 {
        Seq::empty()
    } else {
        let prev = table_rows(entries.drop_last(), colors);
        let k = entries.last().0@;
        if hidden_key(k) {
            prev
        } else {
            match entries.last().1 {
                ReportValue::Object(inner) => prev + table_head(k, colors) + table_rows(inner@, colors) + "  ]<|\n"@,
                ReportValue::Scalar { text, boolean } => prev + "    | → "@ + styled_bold(k, colors) + ": "@ + table_scalar(text@, boolean) + "\n"@,
            }
        }
    }
}

/// The table drawn for object field `key`.
pub open spec fn table_text(key: Seq<char>, entries: Seq<(String, ReportValue)>, colors: bool) -> Seq<char> {
    table_head(key, colors) + table_rows(entries, colors) + "  ]<|\n"@
}

/// The lines of a report: a table for each object field, a line for each
/// other field not named `full_...`.
pub open spec fn report_rows(entries: Seq<(String, ReportValue)>, colors: bool) -> Seq<char>
    decreases entries.len(),
{
    if entries.len() == 0 {
        Seq::empty()
    } else {
        let prev = report_rows(entries.drop_last(), colors);
        let k = entries.last().0@;
        match entries.last().1 {
            ReportValue::Object(inner) => prev + table_text(k, inner@, colors),
            ReportValue::Scalar { text, boolean } => {
                if hidden_key(k) {
                    prev
                } else {
                    prev + "\n  "@ + styled_blue("[#]"@, colors) + " "@ + styled_bold(k, colors) + ": "@ + styled_bold(text@, colors) + "\n"@
                }
            },
        }
    }
}

/// The rendering of a report: its lines between braces; nothing for a
/// report that is not an object.
pub open spec fn spec_format_report(report: ReportValue, colors: bool) -> Seq<char> {
    match report {
        ReportValue::Object(entries) => "{"@ + report_rows(entries@, colors) + "}\n\n"@,
        ReportValue::Scalar { .. } => Seq::empty(),
    }
}

/// Appends the rows of a table for `entries` to `out`.
#[verifier::rlimit(60)]
fn push_table_rows(entries: &Vec<(String, ReportValue)>, colors: bool, out: &mut String)
    ensures
        final(out)@ == old(out)@ + table_rows(entries@, colors),
    decreases entries@,
{
    let mut i: usize = 0;
    while i < entries.len()
        invariant
            i <= entries@.len(),
            out@ == old(out)@ + table_rows(entries@.take(i as int), colors),
        decreases entries@.len() - i,
    {
        proof {
            assert(entries@.take(i + 1).drop_last() =~= entries@.take(i as int));
            assert(entries@.take(i + 1).last() == entries@[i as int]);
        }
        let key = &entries[i].0;
        let ghost before = out@;
        if !str_starts_with(key.as_str(), "full_") {
            match &entries[i].1 {
                ReportValue::Object(inner) => {
                    assert(decreases_to!(entries@ => inner@)) by {
                        assert(decreases_to!(entries@ => entries@[i as int]));
                    }
                    push_table_head(key.as_str(), colors, out);
                    push_table_rows(inner, colors, out);
                    out.append("  ]<|\n");
                },
                ReportValue::Scalar { text, boolean } => {
                    out.append("    | → ");
                    let k = style_bold(key.as_str(), colors);
                    out.append(k.as_str());
                    out.append(": ");
                    match boolean {
                        Some(true) => out.append("✔ true"),
                        Some(false) => out.append("✖ false"),
                        None => out.append(text.as_str()),
                    }
                    out.append("\n");
                },
            }
        }
        i = i + 1;
    }
    assert(entries@.take(i as int) =~= entries@);
}

fn push_table_head(key: &str, colors: bool, out: &mut String)
    ensures
        final(out)@ == old(out)@ + table_head(key@, colors),
{
    out.append("\n [* ");
    let k = style_bold_green(key, colors);
    out.append(k.as_str());
    out.append(":\n");
}

/// The table drawn for object field `key`.
pub fn format_table(key: &str, entries: &Vec<(String, ReportValue)>, colors: bool) -> (r: String)
    ensures
        r@ == table_text(key@, entries@, colors),
{
    let mut out = String::new();
    push_table_head(key, colors, &mut out);
    push_table_rows(entries, colors, &mut out);
    out.append("  ]<|\n");
    out
}

/// The console rendering of `report` (styled when `colors`).
pub fn format_report(report: &ReportValue, colors: bool) -> (r: String)
    ensures
        r@ == spec_format_report(*report, colors),
{
    match report {
        ReportValue::Object(entries) => {
            let mut out = String::new();
            out.append("{");
            let mut i: usize = 0;
            while i < entries.len()
                invariant
                    i <= entries@.len(),
                    out@ == "{"@ + report_rows(entries@.take(i as int), colors),
                decreases entries@.len() - i,
            {
                proof {
                    assert(entries@.take(i + 1).drop_last() =~= entries@.take(i as int));
                    assert(entries@.take(i + 1).last() == entries@[i as int]);
                }
                let key = &entries[i].0;
                match &entries[i].1 {
                    ReportValue::Object(inner) => {
                        let t = format_table(key.as_str(), inner, colors);
                        out.append(t.as_str());
                    },
                    ReportValue::Scalar { text, .. } => {
                        if !str_starts_with(key.as_str(), "full_") {
                            out.append("\n  ");
                            let mark = style_blue("[#]", colors);
                            out.append(mark.as_str());
                            out.append(" ");
                            let k = style_bold(key.as_str(), colors);
                            out.append(k.as_str());
                            out.append(": ");
                            let v = style_bold(text.as_str(), colors);
                            out.append(v.as_str());
                            out.append("\n");
                        }
                    },
                }
                i = i + 1;
            }
            assert(entries@.take(i as int) =~= entries@);
            out.append("}\n\n");
            out
        },
        ReportValue::Scalar { .. } => String::new(),
    }
}

/// The reports that a script added, kept as they were given.
pub struct AllReports {
    pub reports: Vec<ReportValue>,
}

impl AllReports {
    /// Records `report` and returns its console rendering, to be printed.
    pub fn add(&mut self, report: ReportValue, colors: bool) -> (shown: String)
        ensures
            final(self).reports@ == old(self).reports@.push(report),
            shown@ == spec_format_report(report, colors),
    {
        let shown = format_report(&report, colors);
        self.reports.push(report);
        shown
    }
}

/// `t` occurs in `s` as a contiguous piece.
pub open spec fn occurs_in(s: Seq<char>, t: Seq<char>) -> bool {
    exists|i: int| 0 <= i && i + t.len() <= s.len() && #[trigger] s.subrange(i, i + t.len()) == t
}

/// The row a table shows for a scalar field.
pub open spec fn scalar_row(k: Seq<char>, text: Seq<char>, boolean: Option<bool>, colors: bool) -> Seq<char> {
    "    | → "@ + styled_bold(k, colors) + ": "@ + table_scalar(text, boolean) + "\n"@
}

proof fn lemma_occurs_extend(a: Seq<char>, b: Seq<char>, t: Seq<char>)
    requires
        occurs_in(a, t),
    ensures
        occurs_in(a + b, t),
{
    let i = choose|i: int| 0 <= i && i + t.len() <= a.len() && #[trigger] a.subrange(i, i + t.len()) == t;
    assert((a + b).subrange(i, i + t.len()) =~= a.subrange(i, i + t.len()));
}

proof fn lemma_occurs_at(a: Seq<char>, t: Seq<char>, b: Seq<char>)
    ensures
        occurs_in(a + t + b, t),
{
    let s = a + t + b;
    assert(s.subrange(a.len() as int, (a.len() + t.len()) as int) =~= t);
}

/// What a table shows for a field that is not hidden.
spec fn field_piece(e: (String, ReportValue), colors: bool) -> Seq<char> {
    match e.1 {
        ReportValue::Object(inner) => table_head(e.0@, colors) + table_rows(inner@, colors) + "  ]<|\n"@,
        ReportValue::Scalar { text, boolean } => scalar_row(e.0@, text@, boolean, colors),
    }
}

proof fn lemma_rows_last(entries: Seq<(String, ReportValue)>, colors: bool)
    requires
        entries.len() > 0,
    ensures
        table_rows(entries, colors) == table_rows(entries.drop_last(), colors) + (if hidden_key(entries.last().0@) {
            Seq::<char>::empty()
        } else {
            field_piece(entries.last(), colors)
        }),
{
    let prev = table_rows(entries.drop_last(), colors);
    if hidden_key(entries.last().0@) {
        assert(prev + Seq::<char>::empty() =~= prev);
    } else {
        match entries.last().1 {
            ReportValue::Object(inner) => {
                assert(table_rows(entries, colors) =~= prev + field_piece(entries.last(), colors));
            },
            ReportValue::Scalar { text, boolean } => {
                assert(table_rows(entries, colors) =~= prev + field_piece(entries.last(), colors));
            },
        }
    }
}

proof fn lemma_rows_show(entries: Seq<(String, ReportValue)>, colors: bool, j: int)
    requires
        0 <= j < entries.len(),
        !hidden_key(entries[j].0@),
    ensures
        occurs_in(table_rows(entries, colors), field_piece(entries[j], colors)),
    decreases entries.len(),
{
    lemma_rows_last(entries, colors);
    let prev = table_rows(entries.drop_last(), colors);
    let last_piece = if hidden_key(entries.last().0@) { Seq::<char>::empty() } else { field_piece(entries.last(), colors) };
    if j < entries.len() - 1 {
        assert(entries.drop_last()[j] == entries[j]);
        lemma_rows_show(entries.drop_last(), colors, j);
        lemma_occurs_extend(prev, last_piece, field_piece(entries[j], colors));
    } else {
        lemma_occurs_at(prev, field_piece(entries[j], colors), Seq::empty());
        assert(prev + field_piece(entries[j], colors) + Seq::<char>::empty() =~= table_rows(entries, colors));
    }
}

/// A table shows every field that is not hidden: each scalar field as its
/// row, and each object field as a nested table (its head, the rows of its
/// own fields, its close), so that by the same law inside the nested table,
/// the fields of objects at every depth are shown.
pub proof fn law_table_shows_fields(entries: Seq<(String, ReportValue)>, colors: bool, j: int)
    requires
        0 <= j < entries.len(),
        !hidden_key(entries[j].0@),
    ensures
        entries[j].1 matches ReportValue::Scalar { text, boolean } ==> occurs_in(
            table_rows(entries, colors),
            scalar_row(entries[j].0@, text@, boolean, colors),
        ),
        entries[j].1 matches ReportValue::Object(inner) ==> occurs_in(
            table_rows(entries, colors),
            table_head(entries[j].0@, colors) + table_rows(inner@, colors) + "  ]<|\n"@,
        ),
{
    lemma_rows_show(entries, colors, j);
}

proof fn lemma_occurs_trans(s: Seq<char>, t: Seq<char>, u: Seq<char>)
    requires
        occurs_in(s, t),
        occurs_in(t, u),
    ensures
        occurs_in(s, u),
{
    let i = choose|i: int| 0 <= i && i + t.len() <= s.len() && #[trigger] s.subrange(i, i + t.len()) == t;
    let k = choose|k: int| 0 <= k && k + u.len() <= t.len() && #[trigger] t.subrange(k, k + u.len()) == u;
    assert(s.subrange(i + k, i + k + u.len()) =~= t.subrange(k, k + u.len()));
}

/// The fields of an object nested in a table are shown in that table: for
/// an object field `j` that is not hidden, every scalar field `i` of it that
/// is not hidden has its row in the table's rendering.
pub proof fn law_nested_rows_shown(entries: Seq<(String, ReportValue)>, colors: bool, j: int, i: int)
    requires
        0 <= j < entries.len(),
        !hidden_key(entries[j].0@),
        entries[j].1 is Object,
        0 <= i < entries[j].1->Object_0@.len(),
        !hidden_key(entries[j].1->Object_0@[i].0@),
        entries[j].1->Object_0@[i].1 is Scalar,
    ensures
        ({
            let f = entries[j].1->Object_0@[i];
            occurs_in(
                table_rows(entries, colors),
                scalar_row(f.0@, f.1->Scalar_text@, f.1->Scalar_boolean, colors),
            )
        }),
{
    let inner = entries[j].1->Object_0@;
    let f = inner[i];
    let piece = table_head(entries[j].0@, colors) + table_rows(inner, colors) + "  ]<|\n"@;
    law_table_shows_fields(entries, colors, j);
    law_table_shows_fields(inner, colors, i);
    lemma_occurs_at(table_head(entries[j].0@, colors), table_rows(inner, colors), "  ]<|\n"@);
    lemma_occurs_trans(piece, table_rows(inner, colors), scalar_row(f.0@, f.1->Scalar_text@, f.1->Scalar_boolean, colors));
    lemma_occurs_trans(table_rows(entries, colors), piece, scalar_row(f.0@, f.1->Scalar_text@, f.1->Scalar_boolean, colors));
}

} // verus!
