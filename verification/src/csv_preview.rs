//! Preview of CSV files as workbooks: the delimiter guessed from a sample,
//! the worksheet limits applied row by row and cell by cell, and where the
//! preview workbook is written.
use vstd::prelude::*;
use vstd::utf8::{decode_utf8, valid_utf8};

use crate::content::utf8_string;
use crate::paths::{file_name, file_name_spec, file_stem, file_stem_spec};
use crate::preview::{
    EXCEL_MAX_CELL_CHARS, OfficeError, sanitize_preview_stem, sanitized_stem, truncate_csv_cell,
    truncated_cell,
};
use crate::provider::{join, join_path};
use crate::text::{chars_of, owned, push_str, string_from_range};

verus! {

/// How many leading bytes of a CSV file the delimiter guess reads.
pub const CSV_SNIFF_BYTES: usize = 65536;

/// Most rows of a worksheet.
pub const EXCEL_MAX_ROWS: usize = 1048576;

/// Most columns of a worksheet.
pub const EXCEL_MAX_COLUMNS: usize = 16384;

// ---------------------------------------------------------------------------
// Delimiter
// ---------------------------------------------------------------------------

/// The delimiters considered, in order of preference.
pub open spec fn candidates() -> Seq<u8> {
    seq![44u8, 9u8, 59u8, 124u8]
}

/// How often each candidate occurs outside quotes in the first record of
/// `s`, scanning from `i`: a doubled quote inside quotes is an escaped
/// quote, any other quote toggles quoting, and the first line break
/// outside quotes ends the record.
pub open spec fn delimiter_counts(s: Seq<u8>, i: int, in_quotes: bool, counts: Seq<nat>) -> Seq<nat>
    decreases s.len() - i,
{
    if i < 0 || i >= s.len() {
        counts
    } else if s[i] == 34u8 {
        if in_quotes && i + 1 < s.len() && s[i + 1] == 34u8 {
            delimiter_counts(s, i + 2, in_quotes, counts)
        } else {
            delimiter_counts(s, i + 1, !in_quotes, counts)
        }
    } else if !in_quotes && (s[i] == 13u8 || s[i] == 10u8) {
        counts
    } else if !in_quotes {
        delimiter_counts(
            s,
            i + 1,
            in_quotes,
            Seq::new(4, |k: int| counts[k] + if s[i] == candidates()[k] { 1nat } else { 0nat }),
        )
    } else {
        delimiter_counts(s, i + 1, in_quotes, counts)
    }
}

/// The candidate that occurs most often; among equally frequent ones the
/// earlier candidate.
pub open spec fn best_candidate(counts: Seq<nat>) -> int {
    let b01 = if counts[1] > counts[0] { 1int } else { 0int };
    let b012 = if counts[2] > counts[b01] { 2int } else { b01 };
    if counts[3] > counts[b012] { 3int } else { b012 }
}

/// The delimiter guessed from the sample `s` of a CSV file.
pub open spec fn csv_delimiter_spec(s: Seq<u8>) -> u8 {
    candidates()[best_candidate(delimiter_counts(s, 0, false, seq![0nat, 0nat, 0nat, 0nat]))]
}

/// The guessed delimiter is always one of `,`, tab, `;` and `|`.
pub proof fn law_delimiter_is_a_candidate(sample: Seq<u8>)
    ensures
        candidates().contains(csv_delimiter_spec(sample)),
{
    let k = best_candidate(delimiter_counts(sample, 0, false, seq![0nat, 0nat, 0nat, 0nat]));
    assert(0 <= k < 4);
    assert(candidates()[k] == csv_delimiter_spec(sample));
}

/// The scan of two samples agrees from positions `i1` and `i2` on when what
/// follows them is the same.
proof fn lemma_counts_same_rest(s1: Seq<u8>, s2: Seq<u8>, i1: int, i2: int, q: bool, c: Seq<nat>)
    requires
        0 <= i1 <= s1.len(),
        0 <= i2 <= s2.len(),
        s1.skip(i1) == s2.skip(i2),
    ensures
        delimiter_counts(s1, i1, q, c) == delimiter_counts(s2, i2, q, c),
    decreases s1.len() - i1,
{
    assert(s1.len() - i1 == s1.skip(i1).len());
    if i1 < s1.len() {
        assert(s1[i1] == s1.skip(i1)[0]);
        assert(s2[i2] == s2.skip(i2)[0]);
        assert(s1.skip(i1 + 1) =~= s1.skip(i1).skip(1));
        assert(s2.skip(i2 + 1) =~= s2.skip(i2).skip(1));
        if i1 + 1 < s1.len() {
            assert(s1[i1 + 1] == s1.skip(i1)[1]);
            assert(s2[i2 + 1] == s2.skip(i2)[1]);
            assert(s1.skip(i1 + 2) =~= s1.skip(i1).skip(2));
            assert(s2.skip(i2 + 2) =~= s2.skip(i2).skip(2));
        }
        if s1[i1] == 34u8 && q && i1 + 1 < s1.len() && s1[i1 + 1] == 34u8 {
            lemma_counts_same_rest(s1, s2, i1 + 2, i2 + 2, q, c);
        } else if s1[i1] == 34u8 {
            lemma_counts_same_rest(s1, s2, i1 + 1, i2 + 1, !q, c);
        } else if !q && (s1[i1] == 13u8 || s1[i1] == 10u8) {
        } else if !q {
            let c2 = Seq::new(4, |k: int| c[k] + if s1[i1] == candidates()[k] { 1nat } else { 0nat });
            assert(c2 == Seq::new(4, |k: int| c[k] + if s2[i2] == candidates()[k] { 1nat } else { 0nat }));
            lemma_counts_same_rest(s1, s2, i1 + 1, i2 + 1, q, c2);
        } else {
            lemma_counts_same_rest(s1, s2, i1 + 1, i2 + 1, q, c);
        }
    }
}

/// Inside quotes, bytes other than a quote are passed over without being
/// counted.
proof fn lemma_counts_skip_quoted(s: Seq<u8>, i: int, e: int, c: Seq<nat>)
    requires
        0 <= i <= e <= s.len(),
        forall|j: int| i <= j < e ==> s[j] != 34u8,
    ensures
        delimiter_counts(s, i, true, c) == delimiter_counts(s, e, true, c),
    decreases e - i,
{
    if i < e {
        lemma_counts_skip_quoted(s, i + 1, e, c);
    }
}

/// Outside quotes, the same bytes (no quote, no line break) count the same
/// in two samples whose scans agree afterwards.
proof fn lemma_counts_same_prefix(s1: Seq<u8>, s2: Seq<u8>, i: int, k: int, c: Seq<nat>)
    requires
        0 <= i <= k <= s1.len(),
        k <= s2.len(),
        forall|j: int| i <= j < k ==> s1[j] == s2[j] && s1[j] != 34u8 && s1[j] != 13u8 && s1[j] != 10u8,
        forall|c2: Seq<nat>| delimiter_counts(s1, k, false, c2) == delimiter_counts(s2, k, false, c2),
    ensures
        delimiter_counts(s1, i, false, c) == delimiter_counts(s2, i, false, c),
    decreases k - i,
{
    if i < k {
        let c2 = Seq::new(4, |m: int| c[m] + if s1[i] == candidates()[m] { 1nat } else { 0nat });
        assert(c2 == Seq::new(4, |m: int| c[m] + if s2[i] == candidates()[m] { 1nat } else { 0nat }));
        lemma_counts_same_prefix(s1, s2, i + 1, k, c2);
    } else {
        assert(delimiter_counts(s1, k, false, c) == delimiter_counts(s2, k, false, c));
    }
}

/// Delimiters are counted outside quotes only: in a sample whose first
/// record holds, after a stretch `pre` without quotes or line breaks, a
/// quoted field `q` (without quotes of its own), whatever `q` holds does not
/// change the guessed delimiter: it is the one guessed with `q` left empty.
pub proof fn law_quoted_bytes_do_not_count(pre: Seq<u8>, q: Seq<u8>, rest: Seq<u8>)
    requires
        forall|j: int| 0 <= j < pre.len() ==> pre[j] != 34u8 && pre[j] != 13u8 && pre[j] != 10u8,
        forall|j: int| 0 <= j < q.len() ==> q[j] != 34u8,
    ensures
        csv_delimiter_spec(pre + seq![34u8] + q + seq![34u8] + rest) == csv_delimiter_spec(
            pre + seq![34u8, 34u8] + rest,
        ),
{
    let s1 = pre + seq![34u8] + q + seq![34u8] + rest;
    let s2 = pre + seq![34u8, 34u8] + rest;
    let a = pre.len() as int;
    let e = a + 1 + q.len();
    assert forall|c2: Seq<nat>| delimiter_counts(s1, a, false, c2) == delimiter_counts(s2, a, false, c2) by {
        assert(s1[a] == 34u8);
        assert(s2[a] == 34u8);
        assert forall|j: int| a + 1 <= j < e implies s1[j] != 34u8 by {
            assert(s1[j] == q[j - a - 1]);
        }
        lemma_counts_skip_quoted(s1, a + 1, e, c2);
        assert(s1[e] == 34u8);
        assert(s2[a + 1] == 34u8);
        assert(delimiter_counts(s1, a, false, c2) == delimiter_counts(s1, a + 1, true, c2));
        assert(delimiter_counts(s2, a, false, c2) == delimiter_counts(s2, a + 1, true, c2));
        assert(s1.len() - (e + 1) == s2.len() - (a + 2));
        assert(s1.skip(e + 1) =~= rest);
        assert(s2.skip(a + 2) =~= rest);
        if e + 1 < s1.len() && s1[e + 1] == 34u8 {
            assert(s2[a + 2] == s1[e + 1]);
            assert(s1.skip(e + 2) =~= rest.skip(1));
            assert(s2.skip(a + 3) =~= rest.skip(1));
            assert(delimiter_counts(s1, e, true, c2) == delimiter_counts(s1, e + 2, true, c2));
            assert(delimiter_counts(s2, a + 1, true, c2) == delimiter_counts(s2, a + 3, true, c2));
            lemma_counts_same_rest(s1, s2, e + 2, a + 3, true, c2);
        } else {
            if a + 2 < s2.len() {
                assert(s2[a + 2] == s1[e + 1]);
            }
            assert(delimiter_counts(s1, e, true, c2) == delimiter_counts(s1, e + 1, false, c2));
            assert(delimiter_counts(s2, a + 1, true, c2) == delimiter_counts(s2, a + 2, false, c2));
            lemma_counts_same_rest(s1, s2, e + 1, a + 2, false, c2);
        }
    }
    assert forall|j: int| 0 <= j < a implies s1[j] == s2[j] && s1[j] != 34u8 && s1[j] != 13u8 && s1[j] != 10u8 by {
        assert(s1[j] == pre[j]);
        assert(s2[j] == pre[j]);
    }
    lemma_counts_same_prefix(s1, s2, 0, a, seq![0nat, 0nat, 0nat, 0nat]);
}

/// The guess prefers frequency, then the order `,`, tab, `;`, `|`: the
/// chosen candidate occurs at least as often as every other one, and more
/// often than every candidate before it.
pub proof fn law_delimiter_is_the_most_frequent(counts: Seq<nat>)
    requires
        counts.len() == 4,
    ensures
        0 <= best_candidate(counts) < 4,
        forall|m: int| 0 <= m < 4 ==> counts[best_candidate(counts)] >= #[trigger] counts[m],
        forall|m: int| 0 <= m < best_candidate(counts) ==> #[trigger] counts[m] < counts[best_candidate(counts)],
{
}

/// Only the first record is sampled: what follows the first line break
/// outside quotes does not change the guess.
pub proof fn law_only_the_first_record_counts(pre: Seq<u8>, brk: u8, rest: Seq<u8>)
    requires
        forall|j: int| 0 <= j < pre.len() ==> pre[j] != 34u8 && pre[j] != 13u8 && pre[j] != 10u8,
        brk == 13u8 || brk == 10u8,
    ensures
        csv_delimiter_spec(pre + seq![brk] + rest) == csv_delimiter_spec(pre),
{
    let s1 = pre + seq![brk] + rest;
    let k = pre.len() as int;
    assert(s1[k] == brk);
    assert forall|j: int| 0 <= j < k implies s1[j] == pre[j] && s1[j] != 34u8 && s1[j] != 13u8 && s1[j] != 10u8 by {
        assert(s1[j] == pre[j]);
    }
    assert forall|c2: Seq<nat>| delimiter_counts(s1, k, false, c2) == delimiter_counts(pre, k, false, c2) by {
    }
    lemma_counts_same_prefix(s1, pre, 0, k, seq![0nat, 0nat, 0nat, 0nat]);
}

/// Guesses the delimiter of a CSV file from its first bytes (see
/// [`csv_delimiter_spec`]): `,`, tab, `;` or `|`.
pub fn csv_delimiter(sample: &[u8]) -> (d: u8)
    ensures
        d == csv_delimiter_spec(sample@),
{
    let ghost s = sample@;
    let mut c0: usize = 0;
    let mut c1: usize = 0;
    let mut c2: usize = 0;
    let mut c3: usize = 0;
    let mut in_quotes = false;
    let mut i: usize = 0;
    let mut done = false;
    while i < sample.len() && !done
        invariant
            i <= sample.len() + 1,
            s == sample@,
            c0 <= i && c1 <= i && c2 <= i && c3 <= i,
            !done ==> delimiter_counts(s, 0, false, seq![0nat, 0nat, 0nat, 0nat]) == delimiter_counts(
                s,
                i as int,
                in_quotes,
                seq![c0 as nat, c1 as nat, c2 as nat, c3 as nat],
            ),
            done ==> delimiter_counts(s, 0, false, seq![0nat, 0nat, 0nat, 0nat]) == seq![
                c0 as nat,
                c1 as nat,
                c2 as nat,
                c3 as nat,
            ],
        decreases sample.len() + 1 - i, (if done { 0int } else { 1int }),
    {
        let b = sample[i];
        if b == 34u8 {
            if in_quotes && i + 1 < sample.len() && sample[i + 1] == 34u8 {
                i = i + 2;
            } else {
                in_quotes = !in_quotes;
                i = i + 1;
            }
        } else if !in_quotes && (b == 13u8 || b == 10u8) {
            done = true;
        } else if !in_quotes {
            let ghost before = seq![c0 as nat, c1 as nat, c2 as nat, c3 as nat];
            if b == 44u8 {
                c0 = c0 + 1;
            }
            if b == 9u8 {
                c1 = c1 + 1;
            }
            if b == 59u8 {
                c2 = c2 + 1;
            }
            if b == 124u8 {
                c3 = c3 + 1;
            }
            proof {
                let next = Seq::new(4, |k: int| before[k] + if s[i as int] == candidates()[k] { 1nat } else { 0nat });
                assert(next =~= seq![c0 as nat, c1 as nat, c2 as nat, c3 as nat]);
            }
            i = i + 1;
        } else {
            i = i + 1;
        }
    }
    let ghost counts = seq![c0 as nat, c1 as nat, c2 as nat, c3 as nat];
    proof {
        if !done {
            assert(delimiter_counts(s, i as int, in_quotes, counts) == counts);
        }
    }
    let mut best: usize = 0;
    let mut best_count = c0;
    if c1 > best_count {
        best = 1;
        best_count = c1;
    }
    if c2 > best_count {
        best = 2;
        best_count = c2;
    }
    if c3 > best_count {
        best = 3;
    }
    assert(best as int == best_candidate(counts));
    if best == 0 {
        44u8
    } else if best == 1 {
        9u8
    } else if best == 2 {
        59u8
    } else {
        124u8
    }
}

// ---------------------------------------------------------------------------
// Worksheet limits
// ---------------------------------------------------------------------------

/// Failures of a CSV preview conversion.
#[derive(Debug, Clone, PartialEq, Eq)]
pub enum CsvPreviewError {
    /// A field is not valid UTF-8.
    InvalidUtf8,
    Conversion(String),
}

/// The office error a failed conversion is reported as.
pub fn csv_preview_error_to_office_error(error: CsvPreviewError) -> (e: OfficeError)
    ensures
        match error {
            CsvPreviewError::InvalidUtf8 => e matches OfficeError::Conversion(m) && m@
                == "CSV contains text that could not be decoded as UTF-8 or GB18030"@,
            CsvPreviewError::Conversion(m) => e == OfficeError::Conversion(m),
        },
{
    match error {
        CsvPreviewError::InvalidUtf8 => OfficeError::Conversion(
            owned("CSV contains text that could not be decoded as UTF-8 or GB18030"),
        ),
        CsvPreviewError::Conversion(m) => OfficeError::Conversion(m),
    }
}

/// The limits of one preview worksheet as its records are written: at most
/// [`EXCEL_MAX_ROWS`] rows and [`EXCEL_MAX_COLUMNS`] columns, and cells
/// clipped to [`EXCEL_MAX_CELL_CHARS`] characters.
pub struct SheetLimits {
    pub rows: usize,
    pub truncated_rows: bool,
    pub truncated_columns: bool,
    pub truncated_cells: usize,
}

impl SheetLimits {
    /// Limits before the first record.
    pub fn new() -> (l: Self)
        ensures
            l.rows == 0,
            !l.truncated_rows,
            !l.truncated_columns,
            l.truncated_cells == 0,
    {
        SheetLimits { rows: 0, truncated_rows: false, truncated_columns: false, truncated_cells: 0 }
    }

    /// Whether the next record gets a row; when the sheet is full, the
    /// preview is marked row-truncated and writing stops.
    pub fn admit_row(&mut self) -> (r: bool)
        ensures
            r == (old(self).rows < EXCEL_MAX_ROWS),
            final(self).rows == old(self).rows,
            final(self).truncated_rows == (old(self).truncated_rows || !r),
            final(self).truncated_columns == old(self).truncated_columns,
            final(self).truncated_cells == old(self).truncated_cells,
    {
        if self.rows >= EXCEL_MAX_ROWS {
            self.truncated_rows = true;
            false
        } else {
            true
        }
    }

    /// The text written for field `column` of the current row: none past
    /// the last column (the preview is marked column-truncated and the rest
    /// of the record is dropped), an error for a field that is not UTF-8,
    /// else the field clipped to the cell limit (clipped cells are counted).
    pub fn cell(&mut self, column: usize, field: &[u8]) -> (r: Result<Option<String>, CsvPreviewError>)
        ensures
            column >= EXCEL_MAX_COLUMNS ==> (r matches Ok(None) && final(self).truncated_columns
                && final(self).rows == old(self).rows && final(self).truncated_cells == old(self).truncated_cells),
            column < EXCEL_MAX_COLUMNS && !valid_utf8(field@) ==> r == Err::<Option<String>, CsvPreviewError>(
                CsvPreviewError::InvalidUtf8,
            ),
            column < EXCEL_MAX_COLUMNS && valid_utf8(field@) ==> {
                let v = decode_utf8(field@);
                &&& r matches Ok(Some(text)) && text@ == truncated_cell(v)
                &&& final(self).truncated_cells == crate::search::wrap_usize(
                    old(self).truncated_cells as int,
                    if truncated_cell(v).len() != v.len() {
                        1
                    } else {
                        0
                    },
                )
                &&& final(self).rows == old(self).rows
                &&& final(self).truncated_columns == old(self).truncated_columns
            },
    {
        if column >= EXCEL_MAX_COLUMNS {
            self.truncated_columns = true;
            return Ok(None);
        }
        let mut bytes: Vec<u8> = Vec::new();
        let mut i: usize = 0;
        while i < field.len()
            invariant
                i <= field.len(),
                bytes@ == field@.take(i as int),
            decreases field.len() - i,
        {
            bytes.push(field[i]);
            assert(field@.take(i + 1) =~= field@.take(i as int).push(field@[i as int]));
            i += 1;
        }
        assert(field@.take(field.len() as int) =~= field@);
        match utf8_string(bytes) {
            None => Err(CsvPreviewError::InvalidUtf8),
            Some(value) => {
                let clipped = truncate_csv_cell(value.as_str());
                let text = owned(clipped);
                if chars_of(clipped).len() != chars_of(value.as_str()).len() {
                    self.truncated_cells = self.truncated_cells.wrapping_add(1);
                } else {
                    self.truncated_cells = self.truncated_cells.wrapping_add(0);
                }
                Ok(Some(text))
            },
        }
    }

    /// Moves to the next row once a record was written.
    pub fn end_row(&mut self)
        requires
            old(self).rows < EXCEL_MAX_ROWS,
        ensures
            final(self).rows == old(self).rows + 1,
            final(self).truncated_rows == old(self).truncated_rows,
            final(self).truncated_columns == old(self).truncated_columns,
            final(self).truncated_cells == old(self).truncated_cells,
    {
        self.rows = self.rows + 1;
    }

    /// Whether anything was cut to fit the worksheet.
    pub fn truncated(&self) -> (r: bool)
        ensures
            r == (self.truncated_rows || self.truncated_columns || self.truncated_cells > 0),
    {
        self.truncated_rows || self.truncated_columns || self.truncated_cells > 0
    }
}

// ---------------------------------------------------------------------------
// Preview location
// ---------------------------------------------------------------------------

/// The SHA-1 digest of `bytes` as lower-case hexadecimal text.
pub uninterp spec fn sha1_hex(bytes: Seq<u8>) -> Seq<char>;

/// Hashes `bytes` with the sha1 crate (`Sha1::new`, `update`, `finalize`)
/// and writes the digest as lower-case hex; the result is named
/// [`sha1_hex`] and, as every SHA-1 digest written so, has 40 characters.
#[verifier::external_body]
fn sha1_digest_hex(bytes: &[u8]) -> (r: String)
    ensures
        r@ == sha1_hex(bytes@),
        r@.len() == 40,
{
    let mut hasher: sha1::Sha1 = sha1::Digest::new();
    sha1::Digest::update(&mut hasher, bytes);
    format!("{:x}", sha1::Digest::finalize(hasher))
}

/// The stem a preview workbook is named after: the sanitized file stem of
/// the source, or `csv` when that is empty.
pub open spec fn preview_stem(source: Seq<char>) -> Seq<char> {
    let n = choose|n: Option<Seq<char>>| file_name_spec(source, n);
    let s = match n {
        Some(name) => sanitized_stem(file_stem_spec(name)),
        None => Seq::empty(),
    };
    if s.len() == 0 {
        "csv"@
    } else {
        s
    }
}

/// Where the preview workbook of `source` is written below `data_dir`:
/// `office-preview/csv/<stem>-<first 12 hex digits of digest>.xlsx`, where
/// `digest_input` is what identifies this version of the source (its path,
/// length, modification time and the time of the preview).
pub fn csv_preview_workbook_path(source: &str, data_dir: &str, digest_input: &[u8]) -> (p: String)
    ensures
        p@ == join_path(
            join_path(join_path(data_dir@, "office-preview"@), "csv"@),
            preview_stem(source@) + "-"@ + sha1_hex(digest_input@).take(12) + ".xlsx"@,
        ),
{
    let name = file_name(source);
    proof {
        let n = choose|n: Option<Seq<char>>| file_name_spec(source@, n);
        let got: Option<Seq<char>> = if name is Some {
            Some(name->0@)
        } else {
            None
        };
        crate::paths::lemma_file_name_unique(source@, n, got);
    }
    let stem = match &name {
        Some(n) => sanitize_preview_stem(file_stem(n.as_str()).as_str()),
        None => String::new(),
    };
    let stem = if stem.as_str().unicode_len() == 0 {
        owned("csv")
    } else {
        stem
    };
    let digest = sha1_digest_hex(digest_input);
    let dv = chars_of(digest.as_str());
    let short = string_from_range(&dv, 0, 12);
    let mut file = stem;
    push_str(&mut file, "-");
    push_str(&mut file, short.as_str());
    push_str(&mut file, ".xlsx");
    let dir = join(data_dir, "office-preview");
    let dir = join(dir.as_str(), "csv");
    join(dir.as_str(), file.as_str())
}

} // verus!
