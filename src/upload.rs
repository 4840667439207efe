use vstd::prelude::*;

use crate::percentile::DEFAULT_PERCENTILE_BITS;

verus! {

/// What a field of an upload form carries, by its name.
#[derive(Debug, Clone, Copy, PartialEq, Eq, Structural)]
pub enum FormField {
    /// `percentile`: the percentile, as text.
    Percentile,
    /// `file`: the dataset file.
    File,
    /// Any other name: ignored.
    Other,
}

/// The kind of the field called `name`.
pub open spec fn field_kind(name: Seq<char>) -> FormField {
    if name == "percentile"@ {
        FormField::Percentile
    } else if name == "file"@ {
        FormField::File
    } else {
        FormField::Other
    }
}

/// Computes `field_kind`.
pub fn classify_field(name: &str) -> (r: FormField)
    ensures
        r == field_kind(name@),
{
    let name = name.to_owned();
    if name == "percentile".to_owned() {
        FormField::Percentile
    } else if name == "file".to_owned() {
        FormField::File
    } else {
        FormField::Other
    }
}

/// A dataset file received in an upload.
#[derive(Debug)]
pub struct UploadedFile {
    pub filename: String,
    pub bytes: Vec<u8>,
}

/// Why an upload form cannot be used.
#[derive(Debug, Clone, Copy, PartialEq, Eq, Structural)]
pub enum UploadError {
    /// No readable `file` field was sent.
    NoFile,
}

impl UploadError {
    /// Text shown to a user for this error.
    pub open spec fn text(self) -> Seq<char> {
        "No file provided. Send a file field with your data."@
    }

    /// Text shown to a user for this error.
    pub fn message(&self) -> (r: String)
        ensures
            r@ == self.text(),
    {
        "No file provided. Send a file field with your data.".to_owned()
    }
}

/// An upload form, as its fields arrive one by one.
#[derive(Debug)]
pub struct UploadForm {
    /// Bit pattern of the percentile to compute.
    pub percentile_bits: u64,
    /// The last readable file field, if any.
    pub file: Option<UploadedFile>,
}

/// The name given to an uploaded file that carries none.
pub open spec fn default_filename() -> Seq<char> {
    "data.json"@
}

impl UploadForm {
    /// A form before any field: percentile 95, no file.
    pub fn new() -> (r: UploadForm)
        ensures
            r.percentile_bits == DEFAULT_PERCENTILE_BITS,
            r.file is None,
    {
        UploadForm { percentile_bits: DEFAULT_PERCENTILE_BITS, file: None }
    }

    /// A `percentile` field. `parsed` is the bit pattern of its text read
    /// as a double, or `None` when the text could not be read or parsed; then
    /// the percentile stays as it was.
    pub fn accept_percentile(&mut self, parsed: Option<u64>)
        ensures
            final(self).percentile_bits == match parsed {
                Some(p) => p,
                None => old(self).percentile_bits,
            },
            final(self).file == old(self).file,
    {
        if let Some(p) = parsed {
            self.percentile_bits = p;
        }
    }

    /// A `file` field with its file name, if it has one, and its bytes, or
    /// `None` when they could not be read; then the form stays as it was.
    /// A later file replaces an earlier one.
    pub fn accept_file(&mut self, filename: Option<String>, bytes: Option<Vec<u8>>)
        ensures
            final(self).percentile_bits == old(self).percentile_bits,
            bytes is None ==> final(self).file == old(self).file,
            bytes is Some ==> (final(self).file matches Some(f) && f.bytes == bytes->Some_0
                && f.filename@ == match filename {
                Some(n) => n@,
                None => default_filename(),
            }),
    {
        if let Some(b) = bytes {
            let name = match filename {
                Some(n) => n,
                None => "data.json".to_owned(),
            };
            self.file = Some(UploadedFile { filename: name, bytes: b });
        }
    }

    /// The percentile and the file of a complete form; `NoFile` when no
    /// file was received.
    pub fn finish(self) -> (r: Result<(u64, UploadedFile), UploadError>)
        ensures
            match self.file {
                Some(f) => r == Ok::<(u64, UploadedFile), UploadError>((self.percentile_bits, f)),
                None => r == Err::<(u64, UploadedFile), UploadError>(UploadError::NoFile),
            },
    {
        match self.file {
            Some(f) => Ok((self.percentile_bits, f)),
            None => Err(UploadError::NoFile),
        }
    }
}

} // verus!
