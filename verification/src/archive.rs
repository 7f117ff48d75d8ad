//! An ASAR archive held in memory: framing of the header, lookup of entries,
//! reading of file contents and listing of file paths.
use vstd::prelude::*;

use crate::header::{Header, Entry, lookup, walk, resolve, listed_paths, join_path, unix_path, names_plain, chains_lt, lemma_listed_paths_sorted, law_listed_paths_joined};
use crate::paths::joined;
use crate::text::{path_components, parsed_usize, split_components, parse_usize, chars_of, string_from_chars};

verus! {

/// The header's JSON starts at this byte; its length is the `u32` at 12.
pub const PICKLE_HEADER_OFFSET: usize = 16;

/// What can go wrong when reading an archive.
#[derive(Debug, PartialEq)]
pub enum AsarError {
    /// Reading the archive from disk failed (the text of the I/O error).
    Io(String),
    /// The header is not the JSON of a header (the parser's message).
    Json(String),
    /// The bytes do not frame an archive, or an entry does not fit in them.
    InvalidFormat(&'static str),
    /// An entry's offset is not a decimal `usize`.
    InvalidOffset(String),
    /// No entry lies at this path.
    MissingEntry(String),
}

impl AsarError {
    /// The text that describes the error.
    pub open spec fn spec_message(&self) -> Seq<char> {
        match self {
            AsarError::Io(e) => "i/o error: "@ + e@,
            AsarError::Json(e) => "json parse error: "@ + e@,
            AsarError::InvalidFormat(m) => "invalid asar format: "@ + m@,
            AsarError::InvalidOffset(o) => "invalid asar entry offset: "@ + o@,
            AsarError::MissingEntry(p) => "missing asar entry: "@ + p@,
        }
    }

    /// The text that describes the error, as the program prints it.
    pub fn message(&self) -> (r: String)
        ensures
            r@ == self.spec_message(),
    {
        let (lead, detail): (&str, &str) = match self {
            AsarError::Io(e) => ("i/o error: ", e.as_str()),
            AsarError::Json(e) => ("json parse error: ", e.as_str()),
            AsarError::InvalidFormat(m) => ("invalid asar format: ", *m),
            AsarError::InvalidOffset(o) => ("invalid asar entry offset: ", o.as_str()),
            AsarError::MissingEntry(p) => ("missing asar entry: ", p.as_str()),
        };
        let mut out = lead.to_owned();
        out.append(detail);
        out
    }
}

/// What the archive says of one listed path when it is extracted.
#[derive(Debug, PartialEq)]
pub enum ExtractAction {
    /// The entry is stored outside the archive: nothing to write.
    Skip,
    /// A directory without a size: create it.
    CreateDir,
    /// A file: create its parent directory and write its contents
    /// (`read_file`); make it executable when `executable` holds.
    WriteFile { executable: bool },
}

/// The number that four bytes write in little-endian order.
pub open spec fn u32_le(b0: u8, b1: u8, b2: u8, b3: u8) -> int {
    b0 + b1 * 0x100 + b2 * 0x1_0000 + b3 * 0x100_0000
}

/// The header size that the archive's bytes announce (bytes 12 to 15).
pub open spec fn announced_header_size(bytes: Seq<u8>) -> int {
    u32_le(bytes[12], bytes[13], bytes[14], bytes[15])
}

/// Reads the little-endian `u32` at `offset`.
pub fn read_u32_le(bytes: &[u8], offset: usize) -> (r: Result<u32, AsarError>)
    ensures
        offset + 4 > usize::MAX ==> r == Err::<u32, AsarError>(
            AsarError::InvalidFormat("u32 offset overflow"),
        ),
        offset + 4 <= usize::MAX && offset + 4 > bytes@.len() ==> r == Err::<u32, AsarError>(
            AsarError::InvalidFormat("u32 read past end of file"),
        ),
        offset + 4 <= bytes@.len() ==> (r matches Ok(v) && v == u32_le(
            bytes@[offset as int],
            bytes@[offset + 1],
            bytes@[offset + 2],
            bytes@[offset + 3],
        )),
{
    let len = bytes.len();
    let range_end = match offset.checked_add(4) {
        Some(e) => e,
        None => {
            return Err(AsarError::InvalidFormat("u32 offset overflow"));
        },
    };
    if range_end > len {
        return Err(AsarError::InvalidFormat("u32 read past end of file"));
    }
    let b0 = bytes[offset] as u32;
    let b1 = bytes[offset + 1] as u32;
    let b2 = bytes[offset + 2] as u32;
    let b3 = bytes[offset + 3] as u32;
    Ok(b0 + b1 * 0x100 + b2 * 0x1_0000 + b3 * 0x100_0000)
}

/// An archive: its bytes, where its payload starts, and its header.
pub struct AsarArchive {
    bytes: Vec<u8>,
    payload_offset: usize,
    header: Header,
}

impl AsarArchive {
    /// The header is a tree of maps: in every directory, names strictly
    /// increase.
    #[verifier::type_invariant]
    spec fn header_is_tree(self) -> bool {
        self.header.wf()
    }

    /// The archive's bytes.
    pub closed spec fn spec_bytes(&self) -> Seq<u8> {
        self.bytes@
    }

    /// Where the payload starts: just after the header's JSON.
    pub closed spec fn spec_payload_offset(&self) -> usize {
        self.payload_offset
    }

    /// The parsed header.
    pub closed spec fn spec_header(&self) -> Header {
        self.header
    }

    /// Frames the header in `bytes` and builds the archive from it.
    ///
    /// The header's JSON is bytes `16 .. 16 + n`, where `n` is the
    /// little-endian `u32` at byte 12; `parse_header` turns those bytes into
    /// a header or says why it cannot. The payload starts right after.
    pub fn from_bytes<F: Fn(&[u8]) -> Result<Header, String>>(bytes: Vec<u8>, parse_header: F) -> (r:
        Result<Self, AsarError>)
        requires
            forall|s: &[u8]| #[trigger] parse_header.requires((s,)),
            forall|s: &[u8], h: Header| #[trigger] parse_header.ensures((s,), Ok::<Header, String>(h)) ==> h.wf(),
        ensures
            r matches Ok(a) ==> a.spec_header().wf(),
            bytes@.len() < PICKLE_HEADER_OFFSET ==> r == Err::<Self, AsarError>(
                AsarError::InvalidFormat("file is shorter than ASAR header"),
            ),
            bytes@.len() >= PICKLE_HEADER_OFFSET && PICKLE_HEADER_OFFSET + announced_header_size(
                bytes@,
            ) > usize::MAX ==> r == Err::<Self, AsarError>(
                AsarError::InvalidFormat("header size overflow"),
            ),
            bytes@.len() >= PICKLE_HEADER_OFFSET && PICKLE_HEADER_OFFSET + announced_header_size(
                bytes@,
            ) <= usize::MAX && PICKLE_HEADER_OFFSET + announced_header_size(bytes@)
                > bytes@.len() ==> r == Err::<Self, AsarError>(
                AsarError::InvalidFormat("header extends past end of file"),
            ),
            bytes@.len() >= PICKLE_HEADER_OFFSET && PICKLE_HEADER_OFFSET + announced_header_size(
                bytes@,
            ) <= bytes@.len() ==> exists|s: &[u8], out: Result<Header, String>|
                {
                    &&& s@ == bytes@.subrange(
                        PICKLE_HEADER_OFFSET as int,
                        PICKLE_HEADER_OFFSET + announced_header_size(bytes@),
                    )
                    &&& parse_header.ensures((s,), out)
                    &&& match out {
                        Ok(h) => (r matches Ok(a) && a.spec_bytes() == bytes@
                            && a.spec_payload_offset() == PICKLE_HEADER_OFFSET
                            + announced_header_size(bytes@) && a.spec_header() == h),
                        Err(m) => (r matches Err(AsarError::Json(m2)) && m2 == m),
                    }
                },
    {
        if bytes.len() < PICKLE_HEADER_OFFSET {
            return Err(AsarError::InvalidFormat("file is shorter than ASAR header"));
        }
        let header_size = match read_u32_le(bytes.as_slice(), 12) {
            Ok(v) => v as usize,
            Err(e) => {
                return Err(e);
            },
        };
        let header_end = match PICKLE_HEADER_OFFSET.checked_add(header_size) {
            Some(e) => e,
            None => {
                return Err(AsarError::InvalidFormat("header size overflow"));
            },
        };
        if header_end > bytes.len() {
            return Err(AsarError::InvalidFormat("header extends past end of file"));
        }
        let slice = vstd::slice::slice_subrange(bytes.as_slice(), PICKLE_HEADER_OFFSET, header_end);
        let parsed = parse_header(slice);
        match parsed {
            Ok(header) => Ok(AsarArchive { bytes, payload_offset: header_end, header }),
            Err(m) => Err(AsarError::Json(m)),
        }
    }

    /// The parsed header.
    pub fn header(&self) -> (r: &Header)
        ensures
            *r == self.spec_header(),
    {
        &self.header
    }

    /// The entry at `path`: the non-empty pieces of `path` between `/`
    /// name the entries to walk down through from the top level.
    pub fn entry(&self, path: &str) -> (r: Result<&Entry, AsarError>)
        ensures
            r is Ok <==> resolve(self.spec_header().files@, path_components(path@)) is Some,
            r matches Ok(e) ==> resolve(self.spec_header().files@, path_components(path@)) == Some(
                *e,
            ),
            r matches Err(err) ==> (err matches AsarError::MissingEntry(p) && p@ == path@),
    {
        let comps = split_components(path);
        let ghost cs = path_components(path@);
        let ghost root = self.header.files@;
        let mut files: &Vec<(String, Entry)> = &self.header.files;
        let mut current: Option<&Entry> = None;
        let n = comps.len();
        assert(cs.skip(0) == cs);
        for i in 0..n
            invariant
                n == comps@.len(),
                comps@.map_values(|c: String| c@) == cs,
                cs == path_components(path@),
                root == self.spec_header().files@,
                resolve(root, cs) == walk(files@, cs.skip(i as int), deref_entry(current)),
        {
            assert(comps@[i as int]@ == cs[i as int]);
            assert(cs.skip(i as int)[0] == cs[i as int]);
            assert(cs.skip(i as int).drop_first() == cs.skip(i + 1));
            match find_entry(files, &comps[i]) {
                None => {
                    assert(lookup(files@, cs.skip(i as int)[0]) is None);
                    assert(walk(files@, cs.skip(i as int), deref_entry(current)) is None);
                    return Err(AsarError::MissingEntry(path.to_owned()));
                },
                Some(e) => {
                    current = Some(e);
                    files = &e.files;
                },
            }
        }
        assert(cs.skip(n as int).len() == 0);
        match current {
            None => Err(AsarError::MissingEntry(path.to_owned())),
            Some(e) => Ok(e),
        }
    }

    /// The contents of the file at `path`: `size` bytes from `offset`
    /// past the start of the payload.
    pub fn read_file(&self, path: &str) -> (r: Result<&[u8], AsarError>)
        ensures
            match resolve(self.spec_header().files@, path_components(path@)) {
                None => (r matches Err(AsarError::MissingEntry(p)) && p@ == path@),
                Some(e) => match e.size {
                    None => r == Err::<&[u8], AsarError>(
                        AsarError::InvalidFormat("file entry missing size"),
                    ),
                    Some(size) => match e.offset {
                        None => r == Err::<&[u8], AsarError>(
                            AsarError::InvalidFormat("file entry missing offset"),
                        ),
                        Some(o) => match parsed_usize(o@) {
                            None => (r matches Err(AsarError::InvalidOffset(p)) && p@ == o@),
                            Some(off) => {
                                let start = self.spec_payload_offset() + off;
                                let end = start + (size as usize);
                                if start > usize::MAX {
                                    r == Err::<&[u8], AsarError>(
                                        AsarError::InvalidFormat("file start overflow"),
                                    )
                                } else if end > usize::MAX {
                                    r == Err::<&[u8], AsarError>(
                                        AsarError::InvalidFormat("file end overflow"),
                                    )
                                } else if end > self.spec_bytes().len() {
                                    r == Err::<&[u8], AsarError>(
                                        AsarError::InvalidFormat(
                                            "file entry extends past end of archive",
                                        ),
                                    )
                                } else {
                                    (r matches Ok(s) && s@ == self.spec_bytes().subrange(
                                        start,
                                        end,
                                    ))
                                }
                            },
                        },
                    },
                },
            },
    {
        let entry = match self.entry(path) {
            Ok(e) => e,
            Err(err) => {
                return Err(err);
            },
        };
        let size = match entry.size {
            Some(s) => s as usize,
            None => {
                return Err(AsarError::InvalidFormat("file entry missing size"));
            },
        };
        let offset_text = match &entry.offset {
            Some(o) => o,
            None => {
                return Err(AsarError::InvalidFormat("file entry missing offset"));
            },
        };
        let offset = match parse_usize(offset_text.as_str()) {
            Some(v) => v,
            None => {
                return Err(AsarError::InvalidOffset(offset_text.clone()));
            },
        };
        let start = match self.payload_offset.checked_add(offset) {
            Some(v) => v,
            None => {
                return Err(AsarError::InvalidFormat("file start overflow"));
            },
        };
        let end = match start.checked_add(size) {
            Some(v) => v,
            None => {
                return Err(AsarError::InvalidFormat("file end overflow"));
            },
        };
        if end > self.bytes.len() {
            return Err(AsarError::InvalidFormat("file entry extends past end of archive"));
        }
        Ok(vstd::slice::slice_subrange(self.bytes.as_slice(), start, end))
    }

    /// The paths of all files (entries without children), in the order of
    /// the header, with `/` between names.
    pub fn list_files(&self) -> (r: Vec<String>)
        ensures
            r@.map_values(|s: String| s@) == listed_paths(self.spec_header().files@, seq![]),
            names_plain(self.spec_header().files@) ==> forall|i: int, j: int|
                0 <= i < j < r@.len() ==> chains_lt(
                    path_components(#[trigger] r@[i]@),
                    path_components(#[trigger] r@[j]@),
                ),
            names_plain(self.spec_header().files@) ==> forall|i: int, j: int|
                0 <= i < r@.len() && 0 <= j < r@.len() && i != j ==> #[trigger] r@[i]@ != #[trigger] r@[j]@,
            names_plain(self.spec_header().files@) ==> forall|i: int|
                0 <= i < r@.len() ==> #[trigger] r@[i]@ == joined(path_components(r@[i]@)),
    {
        proof {
            use_type_invariant(self);
        }
        let mut files: Vec<String> = Vec::new();
        let prefix: Vec<char> = Vec::new();
        collect_paths(&self.header.files, &prefix, &mut files);
        assert(files@.map_values(|s: String| s@) == listed_paths(self.header.files@, prefix@));
        proof {
            let lp = listed_paths(self.header.files@, seq![]);
            assert(prefix@ == Seq::<char>::empty());
            assert forall|i: int| 0 <= i < files@.len() implies #[trigger] files@[i]@ == lp[i] by {
                assert(files@.map_values(|s: String| s@)[i] == files@[i]@);
            }
            if names_plain(self.header.files@) {
                lemma_listed_paths_sorted(self.header.files@);
                law_listed_paths_joined(self.header, seq![]);
            }
        }
        files
    }

    /// What extracting the listed path `file` asks for.
    pub fn extract_action(&self, file: &str) -> (r: Result<ExtractAction, AsarError>)
        ensures
            match resolve(self.spec_header().files@, path_components(file@)) {
                None => (r matches Err(AsarError::MissingEntry(p)) && p@ == file@),
                Some(e) => if e.unpacked == Some(true) {
                    r == Ok::<ExtractAction, AsarError>(ExtractAction::Skip)
                } else if e.files@.len() > 0 && e.size is None {
                    r == Ok::<ExtractAction, AsarError>(ExtractAction::CreateDir)
                } else {
                    r == Ok::<ExtractAction, AsarError>(
                        ExtractAction::WriteFile { executable: e.executable == Some(true) },
                    )
                },
            },
    {
        let entry = match self.entry(file) {
            Ok(e) => e,
            Err(err) => {
                return Err(err);
            },
        };
        if entry.unpacked.unwrap_or(false) {
            return Ok(ExtractAction::Skip);
        }
        if entry.files.len() > 0 && entry.size.is_none() {
            return Ok(ExtractAction::CreateDir);
        }
        Ok(ExtractAction::WriteFile { executable: entry.executable.unwrap_or(false) })
    }
}

/// The entry behind an optional reference.
pub open spec fn deref_entry(e: Option<&Entry>) -> Option<Entry> {
    match e {
        Some(x) => Some(*x),
        None => None,
    }
}

/// The first entry of `files` named `name`.
fn find_entry<'a>(files: &'a Vec<(String, Entry)>, name: &String) -> (r: Option<&'a Entry>)
    ensures
        deref_entry(r) == lookup(files@, name@),
{
    let n = files.len();
    assert(files@.skip(0) == files@);
    for i in 0..n
        invariant
            n == files@.len(),
            lookup(files@, name@) == lookup(files@.skip(i as int), name@),
    {
        assert(files@.skip(i as int)[0] == files@[i as int]);
        assert(files@.skip(i as int).drop_first() == files@.skip(i + 1));
        if files[i].0 == *name {
            return Some(&files[i].1);
        }
    }
    None
}

/// Appends the characters of `src` to `dst`.
fn append_chars(dst: &mut Vec<char>, src: &[char])
    ensures
        final(dst)@ == old(dst)@ + src@,
{
    let n = src.len();
    for i in 0..n
        invariant
            n == src@.len(),
            dst@ == old(dst)@ + src@.take(i as int),
    {
        dst.push(src[i]);
        assert(src@.take(i + 1) == src@.take(i as int).push(src@[i as int]));
    }
    assert(src@.take(n as int) == src@);
}

/// `prefix` joined with `name` as `Path::join` does on Unix.
pub(crate) fn join_chars(prefix: &Vec<char>, name: &Vec<char>) -> (r: Vec<char>)
    ensures
        r@ == join_path(prefix@, name@),
{
    if name.len() > 0 && name[0] == '/' {
        return name.clone();
    }
    let mut out: Vec<char> = Vec::new();
    if prefix.len() == 0 {
        append_chars(&mut out, name.as_slice());
        assert(out@ == name@);
        return out;
    }
    append_chars(&mut out, prefix.as_slice());
    if prefix[prefix.len() - 1] != '/' {
        out.push('/');
    }
    append_chars(&mut out, name.as_slice());
    out
}

/// The path written with `/` in place of every `\`.
pub fn path_to_unix_string(path: &[char]) -> (r: String)
    ensures
        r@ == unix_path(path@),
{
    let mut out: Vec<char> = Vec::new();
    let n = path.len();
    for i in 0..n
        invariant
            n == path@.len(),
            out@ == unix_path(path@.take(i as int)),
    {
        let c = path[i];
        out.push(if c == '\\' { '/' } else { c });
        assert(unix_path(path@.take(i + 1)) == unix_path(path@.take(i as int)).push(
            if c == '\\' { '/' } else { c },
        ));
    }
    assert(path@.take(n as int) == path@);
    string_from_chars(out.as_slice())
}

/// Appends to `files` the paths of the leaves below `entries`, each joined
/// onto `prefix`.
pub fn collect_paths(entries: &Vec<(String, Entry)>, prefix: &Vec<char>, files: &mut Vec<String>)
    ensures
        final(files)@.map_values(|s: String| s@) == old(files)@.map_values(|s: String| s@)
            + listed_paths(entries@, prefix@),
    decreases entries@,
{
    let n = entries.len();
    for i in 0..n
        invariant
            n == entries@.len(),
            files@.map_values(|s: String| s@) == old(files)@.map_values(|s: String| s@)
                + listed_paths(entries@.take(i as int), prefix@),
    {
        let name = chars_of(entries[i].0.as_str());
        let path = join_chars(prefix, &name);
        let entry = &entries[i].1;
        let ghost before = files@.map_values(|s: String| s@);
        assert(entries@.take(i + 1).drop_last() == entries@.take(i as int));
        assert(entries@.take(i + 1).last() == entries@[i as int]);
        if entry.files.len() == 0 {
            let p = path_to_unix_string(path.as_slice());
            files.push(p);
            assert(files@.map_values(|s: String| s@) == before.push(p@));
        } else {
            collect_paths(&entry.files, &path, files);
        }
    }
    assert(entries@.take(n as int) == entries@);
}

} // verus!
