//! Resolving byte offsets within a source document to line/column positions.

use vstd::prelude::*;
use vstd::string::StringSliceAdditionalSpecFns;

verus! {

/// The 1-based line number of the position reached after consuming `n` bytes
/// of `bytes`: one more than the number of newline bytes among the first `n`.
pub open spec fn line_at(bytes: Seq<u8>, n: int) -> int
    decreases n,
{
    if n <= 0 {
        1
    } else {
        line_at(bytes, n - 1) + if bytes[n - 1] == 10u8 {
            1int
        } else {
            0int
        }
    }
}

/// The 1-based column of the position reached after consuming `n` bytes of
/// `bytes`: one more than the distance back to the most recent newline byte.
pub open spec fn column_at(bytes: Seq<u8>, n: int) -> int
    decreases n,
{
    if n <= 0 {
        1
    } else if bytes[n - 1] == 10u8 {
        1
    } else {
        column_at(bytes, n - 1) + 1
    }
}

/// A resolved position within a source file.
#[derive(Debug)]
pub struct Location {
    /// The path to the file.
    pub path: String,
    /// The 1-based line number.
    pub line: usize,
    /// The 1-based column.
    pub column: usize,
}

/// The mathematical value of a `Location`.
pub struct LocationV {
    /// The path to the file.
    pub path: Seq<char>,
    /// The 1-based line number.
    pub line: int,
    /// The 1-based column.
    pub column: int,
}

impl View for Location {
    type V = LocationV;

    open spec fn view(&self) -> LocationV {
        LocationV { path: self.path@, line: self.line as int, column: self.column as int }
    }
}

/// The position that byte offset `offset` within `bytes` resolves to.
pub open spec fn resolved_location(offset: int, bytes: Seq<u8>, path: Seq<char>) -> LocationV {
    LocationV {
        path,
        line: line_at(bytes, spec_consumed(offset, bytes.len() as int)),
        column: column_at(bytes, spec_consumed(offset, bytes.len() as int)),
    }
}

impl Location {
    /// Convert a byte offset into a 1-based line/column position by scanning
    /// the exact in-memory bytes the offset refers to.
    pub fn from_byte_index(index: usize, raw_file: &[u8], path: &str) -> (r: Location)
        requires
            raw_file@.len() < usize::MAX,
        ensures
            r@ == resolved_location(index as int, raw_file@, path@),
    {
        let len = raw_file.len();
        let mut consumed: usize = 0;
        let mut line: usize = 1;
        let mut column: usize = 1;

        while consumed < index && consumed < len
            invariant
                0 <= consumed <= len,
                consumed <= index,
                raw_file@.len() < usize::MAX,
                len == raw_file@.len(),
                line == line_at(raw_file@, consumed as int),
                column == column_at(raw_file@, consumed as int),
                line <= consumed + 1,
                column <= consumed + 1,
            decreases len - consumed,
        {
            let byte = raw_file[consumed];
            consumed = consumed + 1;
            if byte == 10u8 {
                line = line + 1;
                column = 1;
            } else {
                column = column + 1;
            }
        }

        Location { path: path.to_owned(), line, column }
    }

    /// Render the location as `path:line:column`, in bytes.
    pub fn describe_bytes(&self) -> (r: Vec<u8>)
        ensures
            r@ == location_line(self@),
    {
        let mut out: Vec<u8> = Vec::new();
        crate::text::append_all(&mut out, self.path.as_str().as_bytes());
        crate::text::append_all(&mut out, ":".as_bytes());
        crate::text::append_decimal(&mut out, self.line);
        crate::text::append_all(&mut out, ":".as_bytes());
        crate::text::append_decimal(&mut out, self.column);
        proof {
            assert(out@ =~= location_line(self@));
        }
        out
    }

    /// Render the location as `path:line:column`.
    pub fn describe(&self) -> (r: String)
        ensures
            vstd::utf8::valid_utf8(location_line(self@)) ==> vstd::utf8::encode_utf8(r@)
                == location_line(self@),
    {
        let bytes = self.describe_bytes();
        crate::text::bytes_to_string_lossy(bytes.as_slice())
    }
}

/// The rendered form of a location: `path:line:column`.
pub open spec fn location_line(loc: LocationV) -> Seq<u8> {
    vstd::utf8::encode_utf8(loc.path) + ":".spec_bytes() + crate::text::dec_digits(
        loc.line as nat,
    ) + ":".spec_bytes() + crate::text::dec_digits(loc.column as nat)
}

/// How many bytes the resolver consumes: the offset itself, capped at the
/// length of the source.
pub open spec fn spec_consumed(index: int, len: int) -> int {
    if index <= len {
        index
    } else {
        len
    }
}

} // verus!
