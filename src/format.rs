use vstd::prelude::*;
use vstd::string::StringSliceAdditionalSpecFns;

verus! {

/// Largest number of values a dataset may hold.
pub const MAX_VALUES: usize = 10_000_000;

/// The `.` that separates a file name from its extension.
pub const DOT: u8 = 0x2E;

/// Encodings a dataset file may use.
#[derive(Debug, Clone, Copy, PartialEq, Eq, Structural)]
pub enum FileFormat {
    /// A flat array of numbers.
    Json,
    /// A header row naming a `value` column, then one number per row.
    Csv,
}

/// Why a dataset could not be read.
#[derive(Debug, PartialEq, Eq)]
pub enum ReadError {
    /// The extension is neither `json` nor `csv`.
    UnsupportedFormat,
    /// The dataset holds more than `MAX_VALUES` values.
    DatasetTooLarge,
    /// The content could not be decoded; the decoder's own diagnostic.
    Malformed(String),
}

impl ReadError {
    /// Text shown to a user for this error.
    pub open spec fn text(self) -> Seq<char> {
        match self {
            ReadError::UnsupportedFormat => "Unsupported file format. Use .json or .csv"@,
            ReadError::DatasetTooLarge =>
                "Input dataset exceeds the limit of 10000000 values. Aborting."@,
            ReadError::Malformed(d) => d@,
        }
    }

    /// Text shown to a user for this error.
    pub fn message(&self) -> (r: String)
        ensures
            r@ == self.text(),
    {
        match self {
            ReadError::UnsupportedFormat => "Unsupported file format. Use .json or .csv".to_owned(),
            ReadError::DatasetTooLarge =>
                "Input dataset exceeds the limit of 10000000 values. Aborting.".to_owned(),
            ReadError::Malformed(d) => d.clone(),
        }
    }
}

/// Index of the last `.` in `name`, or -1 when it holds none.
pub open spec fn last_dot(name: Seq<u8>) -> int
    decreases name.len(),
{
    if name.len() == 0 {
        -1
    } else if name.last() == DOT {
        name.len() - 1
    } else {
        last_dot(name.drop_last())
    }
}

/// What follows the last `.` of a file name; the whole name when it holds
/// no `.`.
pub open spec fn extension_of(name: Seq<u8>) -> Seq<u8> {
    name.subrange(last_dot(name) + 1, name.len() as int)
}

/// ASCII upper-case letters mapped to lower case; every other byte kept.
pub open spec fn ascii_lower(b: u8) -> u8 {
    if 65 <= b <= 90 {
        (b + 32) as u8
    } else {
        b
    }
}

/// The two byte strings are equal once ASCII letters are folded to lower
/// case.
pub open spec fn equal_ignoring_ascii_case(a: Seq<u8>, b: Seq<u8>) -> bool {
    &&& a.len() == b.len()
    &&& forall|i: int| 0 <= i < a.len() ==> ascii_lower(#[trigger] a[i]) == ascii_lower(b[i])
}

/// `json`, as bytes.
pub open spec fn json_name() -> Seq<u8> {
    seq![0x6Au8, 0x73u8, 0x6Fu8, 0x6Eu8]
}

/// `csv`, as bytes.
pub open spec fn csv_name() -> Seq<u8> {
    seq![0x63u8, 0x73u8, 0x76u8]
}

/// The format an extension names, in any letter case.
pub open spec fn format_of_extension(ext: Seq<u8>) -> Result<FileFormat, ReadError> {
    if equal_ignoring_ascii_case(ext, json_name()) {
        Ok(FileFormat::Json)
    } else if equal_ignoring_ascii_case(ext, csv_name()) {
        Ok(FileFormat::Csv)
    } else {
        Err(ReadError::UnsupportedFormat)
    }
}

/// Position just after the last `.` of `name` (0 when it holds none).
fn extension_start(name: &[u8]) -> (r: usize)
    ensures
        r == last_dot(name@) + 1,
        r <= name@.len(),
{
    let mut i: usize = name.len();
    assert(name@.subrange(0, i as int) =~= name@);
    while i > 0
        invariant
            i <= name@.len(),
            last_dot(name@) == last_dot(name@.subrange(0, i as int)),
        decreases i,
    {
        let ghost prefix = name@.subrange(0, i as int);
        if name[i - 1] == DOT {
            return i;
        }
        assert(prefix.drop_last() =~= name@.subrange(0, i - 1));
        i = i - 1;
    }
    0
}

/// `s[start..]` equals `pat` once ASCII letters are folded to lower case.
fn tail_equals_ignoring_ascii_case(s: &[u8], start: usize, pat: &Vec<u8>) -> (r: bool)
    requires
        start <= s.len(),
    ensures
        r == equal_ignoring_ascii_case(s@.subrange(start as int, s@.len() as int), pat@),
{
    let ghost tail = s@.subrange(start as int, s@.len() as int);
    if s.len() - start != pat.len() {
        return false;
    }
    let mut i: usize = 0;
    while i < pat.len()
        invariant
            start <= s.len(),
            s.len() - start == pat.len(),
            i <= pat.len(),
            tail == s@.subrange(start as int, s@.len() as int),
            forall|k: int| 0 <= k < i ==> ascii_lower(#[trigger] tail[k]) == ascii_lower(pat@[k]),
        decreases pat.len() - i,
    {
        let a = to_ascii_lower(s[start + i]);
        let b = to_ascii_lower(pat[i]);
        if a != b {
            assert(ascii_lower(tail[i as int]) != ascii_lower(pat@[i as int]));
            return false;
        }
        i = i + 1;
    }
    true
}

/// Computes `ascii_lower`.
fn to_ascii_lower(b: u8) -> (r: u8)
    ensures
        r == ascii_lower(b),
{
    if 65 <= b && b <= 90 {
        b + 32
    } else {
        b
    }
}

/// The format that `ext[start..]` names.
fn format_of_tail(ext: &[u8], start: usize) -> (r: Result<FileFormat, ReadError>)
    requires
        start <= ext.len(),
    ensures
        r == format_of_extension(ext@.subrange(start as int, ext@.len() as int)),
{
    let json: Vec<u8> = vec![0x6Au8, 0x73u8, 0x6Fu8, 0x6Eu8];
    let csv: Vec<u8> = vec![0x63u8, 0x73u8, 0x76u8];
    assert(json@ =~= json_name());
    assert(csv@ =~= csv_name());
    if tail_equals_ignoring_ascii_case(ext, start, &json) {
        Ok(FileFormat::Json)
    } else if tail_equals_ignoring_ascii_case(ext, start, &csv) {
        Ok(FileFormat::Csv)
    } else {
        Err(ReadError::UnsupportedFormat)
    }
}

/// The format an extension (without its `.`) names: `json` or `csv` in any
/// letter case.
pub fn format_from_extension(ext: &str) -> (r: Result<FileFormat, ReadError>)
    ensures
        r == format_of_extension(ext.spec_bytes()),
{
    let bytes = ext.as_bytes();
    let r = format_of_tail(bytes, 0);
    assert(bytes@.subrange(0, bytes@.len() as int) =~= bytes@);
    r
}

/// The format a file name names by the text after its last `.`; a name
/// without `.` is taken whole.
pub fn format_from_filename(filename: &str) -> (r: Result<FileFormat, ReadError>)
    ensures
        r == format_of_extension(extension_of(filename.spec_bytes())),
{
    let bytes = filename.as_bytes();
    let start = extension_start(bytes);
    format_of_tail(bytes, start)
}

/// Admits a dataset of `count` values: refused once it exceeds
/// `MAX_VALUES`.
pub fn check_dataset_size(count: usize) -> (r: Result<(), ReadError>)
    ensures
        r is Ok <==> count <= MAX_VALUES,
        r is Err ==> r == Err::<(), ReadError>(ReadError::DatasetTooLarge),
{
    if count > MAX_VALUES {
        Err(ReadError::DatasetTooLarge)
    } else {
        Ok(())
    }
}

} // verus!
