//! The archive directory: a checksum of each file's cleaned name, and the
//! header that lists checksum, offset and size of every file.

use vstd::prelude::*;
use vstd::string::StrSliceExecFns;
use byteorder::LittleEndian;
use byteorder::WriteBytesExt;

verus! {

/// The IEEE CRC-32 of a byte string, as `crc::crc32::checksum_ieee` computes
/// it.
pub uninterp spec fn crc32_ieee(bytes: Seq<u8>) -> u32;

/// Calls `crc::crc32::checksum_ieee`. Trusted: the result is the checksum
/// named above.
#[verifier::external_body]
fn checksum_ieee(bytes: &Vec<u8>) -> (c: u32)
    ensures
        c == crc32_ieee(bytes@),
{
    crc::crc32::checksum_ieee(bytes)
}

/// A text in lower case, as `str::to_lowercase` writes it.
pub uninterp spec fn lowercase(text: Seq<char>) -> Seq<char>;

/// Calls `str::to_lowercase`. Trusted: the result is the text named above.
#[verifier::external_body]
fn to_lowercase(text: &str) -> (lower: String)
    ensures
        lower@ == lowercase(text@),
{
    text.to_lowercase()
}

/// The four bytes of a number, lowest first.
pub open spec fn le_bytes(v: u32) -> Seq<u8> {
    seq![
        (v & 0xff) as u8,
        ((v >> 8) & 0xff) as u8,
        ((v >> 16) & 0xff) as u8,
        ((v >> 24) & 0xff) as u8,
    ]
}

/// Calls `byteorder::WriteBytesExt::write_u32` with `LittleEndian` on a byte
/// vector. Trusted: the number's four bytes are appended, lowest first; a
/// vector never refuses a write.
#[verifier::external_body]
fn write_u32_le(out: &mut Vec<u8>, v: u32)
    ensures
        final(out)@ == old(out)@ + le_bytes(v),
{
    let _ = out.write_u32::<LittleEndian>(v);
}

/// The byte that stands for a character in a cleaned name: the character
/// itself for `!` to `@`, `[` to `` ` ``, `a` to `z` and `{` to `~`, a blank
/// for every other.
pub open spec fn clean_byte(c: char) -> u8 {
    let code = c as u32;
    if (0x21 <= code <= 0x40) || (0x5b <= code <= 0x60) || (0x61 <= code <= 0x7a) || (0x7b
        <= code <= 0x7e) {
        code as u8
    } else {
        0x20
    }
}

/// The cleaned name of a file: its name in lower case, character by
/// character through `clean_byte`.
pub open spec fn clean_name(filename: Seq<char>) -> Seq<u8> {
    lowercase(filename).map_values(|c: char| clean_byte(c))
}

/// Cleans a text character by character.
pub fn clean_bytes(text: &str) -> (bytes: Vec<u8>)
    ensures
        bytes@ == text@.map_values(|c: char| clean_byte(c)),
{
    let n = text.unicode_len();
    let mut bytes: Vec<u8> = Vec::new();
    let mut i: usize = 0;
    while i < n
        invariant
            n == text@.len(),
            i <= n,
            bytes@ == text@.take(i as int).map_values(|c: char| clean_byte(c)),
        decreases n - i,
    {
        let c = text.get_char(i);
        let code: u32 = c as u32;
        let b: u8 = if (0x21 <= code && code <= 0x40) || (0x5b <= code && code <= 0x7e) {
            code as u8
        } else {
            0x20
        };
        bytes.push(b);
        assert(bytes@ =~= text@.take(i + 1).map_values(|c: char| clean_byte(c)));
        i = i + 1;
    }
    assert(text@.take(n as int) =~= text@);
    bytes
}

/// Cleans a file name: lower case first, then character by character.
pub fn clean_name_bytes(filename: &str) -> (bytes: Vec<u8>)
    ensures
        bytes@ == clean_name(filename@),
{
    let lower = to_lowercase(filename);
    clean_bytes(lower.as_str())
}

/// One file of an archive.
#[derive(Debug)]
pub struct Entry {
    pub basepath: String,
    pub filename: String,
    pub crc: u32,
    pub size: u32,
}

impl Entry {
    /// The entry of a file whose checksum is known.
    pub fn with_crc(basepath: &String, filename: &String, crc: u32, size: u32) -> (e: Entry)
        ensures
            e.basepath@ == basepath@,
            e.filename@ == filename@,
            e.crc == crc,
            e.size == size,
    {
        Entry { basepath: basepath.clone(), filename: filename.clone(), crc, size }
    }

    /// The entry of the file `filename` of `size` bytes under `basepath`. Its
    /// checksum is that of the cleaned file name.
    pub fn create(basepath: &String, filename: &String, size: u32) -> (e: Entry)
        ensures
            e.basepath@ == basepath@,
            e.filename@ == filename@,
            e.crc == crc32_ieee(clean_name(filename@)),
            e.size == size,
    {
        let cleaned = clean_name_bytes(filename.as_str());
        let crc = checksum_ieee(&cleaned);
        Entry::with_crc(basepath, filename, crc, size)
    }
}

/// The files of an archive, in the order they were added.
#[derive(Debug)]
pub struct Archive {
    pub basepath: String,
    pub entries: Vec<Entry>,
}

/// Where the data of file `k` starts: the sizes of the files before it, added
/// up.
pub open spec fn offset_of(entries: Seq<Entry>, k: int) -> int
    decreases k,
{
    if k <= 0 {
        0
    } else {
        offset_of(entries, k - 1) + entries[k - 1].size
    }
}

/// The directory lines of the first `k` files: checksum, offset and size of
/// each, as four bytes each.
pub open spec fn directory(entries: Seq<Entry>, k: int) -> Seq<u8>
    decreases k,
{
    if k <= 0 {
        Seq::empty()
    } else {
        directory(entries, k - 1) + le_bytes(entries[k - 1].crc) + le_bytes(
            offset_of(entries, k - 1) as u32,
        ) + le_bytes(entries[k - 1].size)
    }
}

/// The first eight bytes of an archive: the magic `OMAR`, version 2, no
/// flags, two reserved bytes.
pub open spec fn magic() -> Seq<u8> {
    seq![0x4fu8, 0x4du8, 0x41u8, 0x52u8, 2u8, 0u8, 0u8, 0u8]
}

/// The head of an archive: magic, number of files, directory.
pub open spec fn head(entries: Seq<Entry>) -> Seq<u8> {
    magic() + le_bytes(entries.len() as u32) + directory(entries, entries.len() as int)
}

/// Offsets grow with the index.
pub proof fn lemma_offsets_grow(entries: Seq<Entry>, j: int, k: int)
    requires
        0 <= j <= k,
    ensures
        offset_of(entries, j) <= offset_of(entries, k),
    decreases k - j,
{
    if j < k {
        lemma_offsets_grow(entries, j, k - 1);
    }
}

impl Archive {
    /// An archive without files.
    pub fn create(basepath: &String) -> (a: Archive)
        ensures
            a.basepath@ == basepath@,
            a.entries@.len() == 0,
    {
        Archive { basepath: basepath.clone(), entries: Vec::new() }
    }

    /// Adds the file `filename` of `size` bytes. Always succeeds.
    pub fn add_entry(&mut self, filename: &String, size: u32) -> (added: bool)
        ensures
            added,
            final(self).basepath == old(self).basepath,
            final(self).entries@.len() == old(self).entries@.len() + 1,
            final(self).entries@.drop_last() == old(self).entries@,
            final(self).entries@.last().filename@ == filename@,
            final(self).entries@.last().basepath@ == old(self).basepath@,
            final(self).entries@.last().crc == crc32_ieee(clean_name(filename@)),
            final(self).entries@.last().size == size,
    {
        let entry = Entry::create(&self.basepath, filename, size);
        self.entries.push(entry);
        assert(self.entries@.drop_last() =~= old(self).entries@);
        true
    }

    /// Whether the archive can be written: the number of files and the sum of
    /// their sizes each fit in 32 bits.
    pub open spec fn fits(&self) -> bool {
        self.entries@.len() <= u32::MAX && offset_of(self.entries@, self.entries@.len() as int)
            <= u32::MAX
    }

    /// The head of the archive file, which the files' data follows in order;
    /// `None` where the archive cannot be written.
    pub fn save(&self) -> (r: Option<Vec<u8>>)
        ensures
            r is Some <==> self.fits(),
            r matches Some(bytes) ==> bytes@ == head(self.entries@),
    {
        let n = self.entries.len();
        if n > u32::MAX as usize {
            return None;
        }
        let mut out: Vec<u8> = Vec::new();
        out.push(0x4f);
        out.push(0x4d);
        out.push(0x41);
        out.push(0x52);
        out.push(2);
        out.push(0);
        out.push(0);
        out.push(0);
        assert(out@ =~= magic());
        write_u32_le(&mut out, n as u32);
        let mut pos: u32 = 0;
        let mut k: usize = 0;
        while k < n
            invariant
                n == self.entries@.len(),
                n <= u32::MAX,
                k <= n,
                pos == offset_of(self.entries@, k as int),
                out@ == magic() + le_bytes(n as u32) + directory(self.entries@, k as int),
            decreases n - k,
        {
            let entry = &self.entries[k];
            let ghost before = out@;
            write_u32_le(&mut out, entry.crc);
            write_u32_le(&mut out, pos);
            write_u32_le(&mut out, entry.size);
            proof {
                assert(out@ =~= magic() + le_bytes(n as u32) + directory(
                    self.entries@,
                    k + 1,
                ));
                lemma_offsets_grow(self.entries@, k + 1, n as int);
            }
            match pos.checked_add(entry.size) {
                Some(next) => {
                    pos = next;
                },
                None => {
                    return None;
                },
            }
            k = k + 1;
        }
        Some(out)
    }
}

} // verus!
