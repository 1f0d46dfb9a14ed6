//! The save-version label table and the logic that rebuilds it from the
//! published version list: locating the version table in a page, stepping a
//! table-cell reader over markup events, and parsing the numeric fields.
//! Fetching the page and pulling raw events from it are collaborators
//! outside this crate.

use crate::model::MapItem;
use crate::strutil::spec_find_from;
use crate::strutil::spec_rfind_from;
use crate::strutil::find_sub_from;
use crate::strutil::rfind_sub;
use vstd::prelude::*;
use vstd::string::StrSliceExecFns;

verus! {

/// The label of the first table entry for `v`, if any.
pub open spec fn spec_version_label(table: Seq<(i32, String)>, v: i32) -> Option<Seq<char>>
    decreases table.len(),
{
    if table.len() == 0 {
        None
    } else if table[0].0 == v {
        Some(table[0].1@)
    } else {
        spec_version_label(table.drop_first(), v)
    }
}

proof fn lemma_version_label_step(table: Seq<(i32, String)>, k: int, v: i32)
    requires
        0 <= k < table.len(),
        table[k].0 != v,
        spec_version_label(table.skip(k), v) == spec_version_label(table, v),
    ensures
        spec_version_label(table.skip(k + 1), v) == spec_version_label(table, v),
{
    assert(table.skip(k).drop_first() =~= table.skip(k + 1));
}

/// Looks a save-format version up in the label table; versions the table
/// does not know answer `Unknown`.
pub fn version_label(table: &Vec<(i32, String)>, v: i32) -> (r: String)
    ensures
        match spec_version_label(table@, v) {
            Some(s) => r@ == s,
            None => r@ == "Unknown"@,
        },
{
    let mut k: usize = 0;
    proof {
        assert(table@.skip(0) =~= table@);
    }
    while k < table.len()
        invariant
            k <= table@.len(),
            spec_version_label(table@.skip(k as int), v) == spec_version_label(table@, v),
        decreases table@.len() - k,
    {
        let pair = &table[k];
        proof {
            assert(table@.skip(k as int)[0] == table@[k as int]);
        }
        if pair.0 == v {
            return pair.1.clone();
        }
        proof {
            lemma_version_label_step(table@, k as int, v);
        }
        k = k + 1;
    }
    proof {
        assert(table@.skip(k as int) =~= Seq::<(i32, String)>::empty());
    }
    "Unknown".to_owned()
}

impl MapItem {
    /// The name of the save version the record was written by, looked up
    /// in the given label table, or `Unknown` when the table lacks it.
    pub fn version_description(&self, table: &Vec<(i32, String)>) -> (r: String)
        ensures
            match spec_version_label(table@, self.data_version) {
                Some(s) => r@ == s,
                None => r@ == "Unknown"@,
            },
    {
        version_label(table, self.data_version)
    }
}

/// Where the version table stands in the page: the last occurrence of the
/// version-list heading, the first table opening at or after it, and that
/// table's closing tag.
pub open spec fn spec_version_table(body: Seq<char>) -> Option<Seq<char>> {
    match spec_rfind_from(
        body,
        "List of data versions"@,
        body.len() - "List of data versions"@.len(),
    ) {
        None => None,
        Some(h) => match spec_find_from(body, "<table"@, h) {
            None => None,
            Some(st) => match spec_find_from(body, "</table>"@, st) {
                None => None,
                Some(en) => Some(body.subrange(st, en + 8)),
            },
        },
    }
}

/// Cuts the version table out of the page: from the first table opening at
/// or after the last version-list heading, through the matching close tag.
pub fn find_version_table(body: &str) -> (r: Result<&str, &'static str>)
    ensures
        match r {
            Ok(t) => spec_version_table(body@) == Some(t@),
            Err(_) => spec_version_table(body@) is None,
        },
{
    let heading_pos = match rfind_sub(body, "List of data versions") {
        Some(p) => p,
        None => {
            return Err("Could not find the 'List of data versions' heading");
        },
    };
    let start_pos = match find_sub_from(body, "<table", heading_pos) {
        Some(p) => p,
        None => {
            return Err("Could not find table after the 'List of data versions' heading");
        },
    };
    let end_pos = match find_sub_from(body, "</table>", start_pos) {
        Some(p) => p,
        None => {
            return Err("Could not find end of the versions table");
        },
    };
    let n = body.unicode_len();
    proof {
        reveal_strlit("</table>");
        crate::strutil::lemma_find_from_found(body@, "<table"@, heading_pos as int, start_pos as int);
        crate::strutil::lemma_find_from_found(body@, "</table>"@, start_pos as int, end_pos as int);
        assert(end_pos + 8 <= n);
    }
    Ok(body.substring_char(start_pos, end_pos + 8))
}

/// The numeric value of one decimal digit.
pub open spec fn spec_digit(c: char) -> Option<int> {
    if '0' <= c <= '9' {
        Some(c as int - '0' as int)
    } else {
        None
    }
}

/// The value of a nonempty string of decimal digits; nothing when the
/// string is empty or holds a non-digit.
pub open spec fn spec_digits_val(s: Seq<char>) -> Option<int>
    decreases s.len(),
{
    if s.len() == 0 {
        None
    } else if s.len() == 1 {
        spec_digit(s[0])
    } else {
        match (spec_digits_val(s.drop_last()), spec_digit(s.last())) {
            (Some(hi), Some(d)) => Some(hi * 10 + d),
            _ => None,
        }
    }
}

/// A digit string's value is never negative.
proof fn lemma_digits_val_nonneg(s: Seq<char>)
    ensures
        spec_digits_val(s) matches Some(w) ==> w >= 0,
    decreases s.len(),
{
    if s.len() > 1 {
        lemma_digits_val_nonneg(s.drop_last());
        if spec_digits_val(s) matches Some(w) {
            let hi = spec_digits_val(s.drop_last())->Some_0;
            let d = spec_digit(s.last())->Some_0;
            assert(hi * 10 >= 0) by (nonlinear_arith)
                requires
                    hi >= 0,
            ;
        }
    }
}

/// Parses an unsigned digit string, answering the exact value when it fits
/// a `u32` and nothing when it overflows or is malformed.
fn parse_digits(s: &str) -> (r: Option<u64>)
    ensures
        match spec_digits_val(s@) {
            None => r is None,
            Some(w) => if w <= u32::MAX {
                r == Some(w as u64)
            } else {
                r is None
            },
        },
{
    let n = s.unicode_len();
    if n == 0 {
        return None;
    }
    let c0 = s.get_char(0);
    if !('0' <= c0 && c0 <= '9') {
        proof {
            if s@.len() > 1 {
                lemma_digits_nondigit(s@, 0);
            }
        }
        return None;
    }
    let mut acc: u64 = c0 as u64 - 48;
    let mut i: usize = 1;
    while i < n
        invariant
            1 <= i <= n,
            n == s@.len(),
            ({
                match spec_digits_val(s@.take(i as int)) {
                    None => false,
                    Some(w) => if w <= u32::MAX {
                        acc == w
                    } else {
                        acc == 0x1_0000_0000u64
                    },
                }
            }),
        decreases n - i,
    {
        let c = s.get_char(i);
        if !('0' <= c && c <= '9') {
            proof {
                lemma_digits_nondigit(s@, i as int);
            }
            return None;
        }
        let d: u64 = c as u64 - 48;
        proof {
            let t = s@.take(i + 1);
            assert(t.drop_last() =~= s@.take(i as int));
            assert(t.last() == s@[i as int]);
            assert(t.len() == i + 1 >= 2);
        }
        if acc > 0xffff_ffff {
            proof {
                assert(spec_digits_val(s@.take(i + 1))->Some_0 > u32::MAX) by (nonlinear_arith)
                    requires
                        spec_digits_val(s@.take(i + 1)) matches Some(w2) && w2
                            == spec_digits_val(s@.take(i as int))->Some_0 * 10 + spec_digit(
                            s@[i as int],
                        )->Some_0,
                        spec_digits_val(s@.take(i as int))->Some_0 > u32::MAX,
                        spec_digit(s@[i as int])->Some_0 >= 0,
                ;
            }
            acc = 0x1_0000_0000;
        } else {
            acc = acc * 10 + d;
            if acc > 0xffff_ffff {
                acc = 0x1_0000_0000;
            }
        }
        i = i + 1;
    }
    proof {
        assert(s@.take(n as int) =~= s@);
    }
    if acc <= 0xffff_ffff {
        Some(acc)
    } else {
        None
    }
}

/// A non-digit anywhere makes the whole string worthless.
proof fn lemma_digits_nondigit(s: Seq<char>, k: int)
    requires
        0 <= k < s.len(),
        spec_digit(s[k]) is None,
    ensures
        spec_digits_val(s) is None,
    decreases s.len(),
{
    if s.len() > 1 {
        if k < s.len() - 1 {
            lemma_digits_nondigit(s.drop_last(), k);
        }
    }
}

/// What a decimal string parses to as an `i32`: an optional sign followed
/// by at least one digit, with the value in range.
pub open spec fn spec_parse_i32(s: Seq<char>) -> Option<i32> {
    if s.len() == 0 {
        None
    } else if s[0] == '-' {
        match spec_digits_val(s.drop_first()) {
            Some(v) => if v <= 0x8000_0000 {
                Some((-v) as i32)
            } else {
                None
            },
            None => None,
        }
    } else if s[0] == '+' {
        match spec_digits_val(s.drop_first()) {
            Some(v) => if v <= i32::MAX {
                Some(v as i32)
            } else {
                None
            },
            None => None,
        }
    } else {
        match spec_digits_val(s) {
            Some(v) => if v <= i32::MAX {
                Some(v as i32)
            } else {
                None
            },
            None => None,
        }
    }
}

/// Parses a decimal `i32`: an optional sign followed by digits.
pub fn parse_i32(s: &str) -> (r: Option<i32>)
    ensures
        r == spec_parse_i32(s@),
{
    let n = s.unicode_len();
    if n == 0 {
        return None;
    }
    let c0 = s.get_char(0);
    if c0 == '-' {
        let digits = s.substring_char(1, n);
        proof {
            assert(digits@ =~= s@.drop_first());
            lemma_digits_val_nonneg(digits@);
        }
        match parse_digits(digits) {
            Some(v) => {
                if v > 0x8000_0000 {
                    None
                } else if v == 0x8000_0000 {
                    Some(i32::MIN)
                } else {
                    let x = v as i32;
                    Some(-x)
                }
            },
            None => None,
        }
    } else if c0 == '+' {
        let digits = s.substring_char(1, n);
        proof {
            assert(digits@ =~= s@.drop_first());
            lemma_digits_val_nonneg(digits@);
        }
        match parse_digits(digits) {
            Some(v) => {
                if v <= 0x7fff_ffff {
                    Some(v as i32)
                } else {
                    None
                }
            },
            None => None,
        }
    } else {
        proof {
            lemma_digits_val_nonneg(s@);
        }
        match parse_digits(s) {
            Some(v) => {
                if v <= 0x7fff_ffff {
                    Some(v as i32)
                } else {
                    None
                }
            },
            None => None,
        }
    }
}

/// What a digit string parses to as a `u32`.
pub open spec fn spec_parse_u32(s: Seq<char>) -> Option<u32> {
    match spec_digits_val(s) {
        Some(v) => if v <= u32::MAX {
            Some(v as u32)
        } else {
            None
        },
        None => None,
    }
}

/// Parses an unsigned decimal `u32` (digits only).
pub fn parse_u32(s: &str) -> (r: Option<u32>)
    ensures
        r == spec_parse_u32(s@),
{
    proof {
        lemma_digits_val_nonneg(s@);
    }
    match parse_digits(s) {
        Some(v) => Some(v as u32),
        None => None,
    }
}

/// One markup event of the version table, reduced to plain values: an
/// element opening (with its row-span attribute text, when present), the
/// text inside an element, an element closing, or the end of the input.
pub enum XmlEvent {
    Start(String, Option<String>),
    Text(String),
    End(String),
    Eof,
}

/// What one cell-reader step asks of the event loop next.
pub enum CellStep {
    /// The cell needs more events.
    More,
    /// The cell is complete.
    Done,
    /// The row is malformed.
    Failed(&'static str),
}

/// One cell of a version-table row: its text, and how many further rows
/// it spans.
#[derive(Debug)]
pub struct TableCell {
    pub text: String,
    pub rowspan: u32,
}

impl TableCell {
    pub fn new() -> (c: TableCell)
        ensures
            c.text@.len() == 0,
            c.rowspan == 0,
    {
        proof {
            reveal_strlit("");
        }
        TableCell { text: "".to_owned(), rowspan: 0 }
    }

    /// Opens the cell for one row.  A cell carried over from an earlier
    /// row by its row span consumes no events: its stored text stands
    /// again and one span is used up.
    pub fn begin(&mut self) -> (carried: bool)
        ensures
            old(self).rowspan > 0 ==> carried && final(self).rowspan == old(self).rowspan - 1
                && final(self).text == old(self).text,
            old(self).rowspan == 0 ==> !carried && *final(self) == *old(self),
    {
        if self.rowspan > 0 {
            self.rowspan = self.rowspan - 1;
            true
        } else {
            false
        }
    }

    /// Feeds one event to the cell reader.  `td_found` records whether the
    /// cell's opening tag was seen.  A data cell ends at its closing tag
    /// with its text stored; a header cell ends with its text cleared; a
    /// row closing before the cell, a second opening, a bad row span or the
    /// end of input fail the row.  Events of other elements pass through.
    pub fn step(&mut self, td_found: &mut bool, event: &XmlEvent) -> (r: CellStep)
        ensures
            ({
                let c0 = *old(self);
                let f0 = *old(td_found);
                match event {
                    XmlEvent::Eof => r matches CellStep::Failed(_) && *final(self) == c0 && *final(td_found) == f0,
                    XmlEvent::Start(name, rowspan_attr) => {
                        if name@ == "td"@ {
                            if f0 {
                                r matches CellStep::Failed(_) && *final(self) == c0 && *final(td_found) == f0
                            } else {
                                match rowspan_attr {
                                    None => r is More && *final(td_found) && *final(self) == c0,
                                    Some(rs) => match spec_parse_u32(rs@) {
                                        Some(k) => if k >= 1 {
                                            r is More && *final(td_found) && final(self).rowspan
                                                == k - 1 && final(self).text == c0.text
                                        } else {
                                            r matches CellStep::Failed(_) && *final(self) == c0
                                                && *final(td_found) == f0
                                        },
                                        None => r matches CellStep::Failed(_) && *final(self) == c0
                                            && *final(td_found) == f0,
                                    },
                                }
                            }
                        } else {
                            r is More && *final(self) == c0 && *final(td_found) == f0
                        }
                    },
                    XmlEvent::Text(tx) => if f0 {
                        r is More && final(self).text@ == tx@ && final(self).rowspan == c0.rowspan
                            && *final(td_found) == f0
                    } else {
                        r is More && *final(self) == c0 && *final(td_found) == f0
                    },
                    XmlEvent::End(name) => {
                        if name@ == "td"@ {
                            if f0 {
                                r is Done && *final(self) == c0 && *final(td_found) == f0
                            } else {
                                r matches CellStep::Failed(_) && *final(self) == c0 && *final(td_found) == f0
                            }
                        } else if name@ == "th"@ {
                            r is Done && final(self).text@.len() == 0 && final(self).rowspan
                                == c0.rowspan && *final(td_found) == f0
                        } else if name@ == "tr"@ {
                            r matches CellStep::Failed(_) && *final(self) == c0 && *final(td_found)
                                == f0
                        } else {
                            r is More && *final(self) == c0 && *final(td_found) == f0
                        }
                    },
                }
            }),
    {
        match event {
            XmlEvent::Eof => CellStep::Failed("Unexpected end of file"),
            XmlEvent::Start(name, rowspan_attr) => {
                if crate::strutil::str_eq(name.as_str(), "td") {
                    if *td_found {
                        CellStep::Failed("Unexpected second td tag")
                    } else {
                        match rowspan_attr {
                            None => {
                                *td_found = true;
                                CellStep::More
                            },
                            Some(rs) => match parse_u32(rs.as_str()) {
                                Some(k) => {
                                    if k >= 1 {
                                        self.rowspan = k - 1;
                                        *td_found = true;
                                        CellStep::More
                                    } else {
                                        CellStep::Failed("invalid rowspan value")
                                    }
                                },
                                None => CellStep::Failed("invalid rowspan value"),
                            },
                        }
                    }
                } else {
                    CellStep::More
                }
            },
            XmlEvent::Text(tx) => {
                if *td_found {
                    self.text = tx.clone();
                }
                CellStep::More
            },
            XmlEvent::End(name) => {
                if crate::strutil::str_eq(name.as_str(), "td") {
                    if *td_found {
                        CellStep::Done
                    } else {
                        CellStep::Failed("Unexpected end td tag found")
                    }
                } else if crate::strutil::str_eq(name.as_str(), "th") {
                    proof {
                        reveal_strlit("");
                    }
                    self.text = "".to_owned();
                    CellStep::Done
                } else if crate::strutil::str_eq(name.as_str(), "tr") {
                    CellStep::Failed("Unexpected tr tag")
                } else {
                    CellStep::More
                }
            },
        }
    }
}

/// One parsed version entry: the client version label and its numeric
/// save-format version.
#[derive(Debug)]
pub struct VersionInfo {
    pub client_version: String,
    pub data_version: i32,
}

/// One row of the version table: its first three cells.
#[derive(Debug)]
pub struct TableRow {
    pub cells: Vec<TableCell>,
}

impl TableRow {
    pub fn new() -> (r: TableRow)
        ensures
            r.cells@.len() == 3,
            forall|i: int|
                0 <= i < 3 ==> (#[trigger] r.cells@[i]).text@.len() == 0 && r.cells@[i].rowspan
                    == 0,
    {
        let mut cells: Vec<TableCell> = Vec::new();
        cells.push(TableCell::new());
        cells.push(TableCell::new());
        cells.push(TableCell::new());
        TableRow { cells }
    }

    /// Reads one version entry off the row: the first cell is the client
    /// version (must be nonempty), the third is the numeric save version.
    pub fn parse_line(&self) -> (r: Result<VersionInfo, &'static str>)
        requires
            self.cells@.len() >= 3,
        ensures
            ({
                let head = self.cells@[0].text@;
                let num = spec_parse_i32(self.cells@[2].text@);
                match r {
                    Ok(info) => head.len() > 0 && (num matches Some(v) && info.client_version@
                        == head && info.data_version == v),
                    Err(_) => head.len() == 0 || num is None,
                }
            }),
    {
        let head = &self.cells[0].text;
        if head.unicode_len() == 0 {
            return Err("Client version is empty");
        }
        let data_version = match parse_i32(self.cells[2].text.as_str()) {
            Some(v) => v,
            None => {
                return Err("Could not parse data version");
            },
        };
        Ok(VersionInfo { client_version: head.clone(), data_version })
    }
}

} // verus!
