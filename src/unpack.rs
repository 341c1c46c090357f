//! The unpack stage: the entries of an icon container, the file each one
//! goes to, and the image bytes to write where that file is not there yet.

use vstd::prelude::*;
use crate::resolutions::ResolutionIndex;
use crate::text::{join_path, join_path_exec};

verus! {

#[verifier::external_type_specification]
#[verifier::external_body]
pub struct ExIconDir(ico::IconDir);

#[verifier::external_type_specification]
#[verifier::external_body]
pub struct ExIoError(std::io::Error);

/// The entries of a parsed container, in order: for each, what
/// `IconDirEntry::width`, `IconDirEntry::height` and `IconDirEntry::data`
/// give (the raw PNG or BMP image data).
pub uninterp spec fn entries_of(d: ico::IconDir) -> Seq<(u32, u32, Seq<u8>)>;

/// The entries that parsing the bytes of a container gives, or `None` where
/// the bytes are not a container.
pub uninterp spec fn ico_entries(b: Seq<u8>) -> Option<Seq<(u32, u32, Seq<u8>)>>;

/// The RGBA pixels that decoding an entry's data gives, for an entry of the
/// given width and height, or `None` where the data does not decode to an
/// image of that size.
pub uninterp spec fn decoded_pixels(data: Seq<u8>, width: u32, height: u32) -> Option<Seq<u8>>;

/// The PNG file that encoding an image of these RGBA pixels gives, or `None`
/// where encoding fails.
pub uninterp spec fn png_of(width: u32, height: u32, rgba: Seq<u8>) -> Option<Seq<u8>>;

/// The width of an entry.
pub open spec fn entry_width(e: (u32, u32, Seq<u8>)) -> u32 {
    e.0
}

/// The height of an entry.
pub open spec fn entry_height(e: (u32, u32, Seq<u8>)) -> u32 {
    e.1
}

/// The raw image data of an entry.
pub open spec fn entry_data(e: (u32, u32, Seq<u8>)) -> Seq<u8> {
    e.2
}

/// The unsigned little-endian number of two bytes at `at`.
pub open spec fn le_u16(b: Seq<u8>, at: int) -> int {
    b[at] as int + 256 * (b[at + 1] as int)
}

/// The unsigned little-endian number of four bytes at `at`.
pub open spec fn le_u32(b: Seq<u8>, at: int) -> int {
    le_u16(b, at) + 65536 * le_u16(b, at + 2)
}

/// Whether image data starts with the PNG signature's first four bytes.
pub open spec fn is_png_data(data: Seq<u8>) -> bool {
    data.len() >= 4 && data[0] == 0x89 && data[1] == 0x50 && data[2] == 0x4e && data[3] == 0x47
}

/// The number of palette colours that a BMP of this bit depth can index.
pub open spec fn palette_capacity(bits_per_pixel: int) -> int {
    if bits_per_pixel == 1 {
        2
    } else if bits_per_pixel == 4 {
        16
    } else if bits_per_pixel == 8 {
        256
    } else {
        0
    }
}

/// Whether image data is a paletted BMP whose header declares fewer colours
/// than its pixels can index: its bit depth (at byte 14) is 1, 4 or 8 and
/// its colours-used field (at byte 32) lies strictly between 0 and what that
/// depth can index. Such data is malformed, and decoding it does not return.
pub open spec fn short_palette(data: Seq<u8>) -> bool {
    &&& !is_png_data(data)
    &&& data.len() >= 36
    &&& 0 < le_u32(data, 32) < palette_capacity(le_u16(data, 14))
}

/// What rendering an entry as PNG gives: its PNG bytes, `ImageDecode` where
/// its data is malformed, `Write` where encoding fails.
pub open spec fn rendered(e: (u32, u32, Seq<u8>)) -> Result<Seq<u8>, UnpackError> {
    if short_palette(entry_data(e)) {
        Err(UnpackError::ImageDecode)
    } else {
        match decoded_pixels(entry_data(e), entry_width(e), entry_height(e)) {
            None => Err(UnpackError::ImageDecode),
            Some(px) => match png_of(entry_width(e), entry_height(e), px) {
                Some(b) => Ok(b),
                None => Err(UnpackError::Write),
            },
        }
    }
}

/// Relies on `ico::IconDir::read`, here over an in-memory cursor: the result
/// depends on the bytes alone.
#[verifier::external_body]
fn parse_icon_dir(bytes: &Vec<u8>) -> (r: Result<ico::IconDir, std::io::Error>)
    ensures
        r is Ok <==> ico_entries(bytes@) is Some,
        r matches Ok(d) ==> ico_entries(bytes@) == Some(entries_of(d)),
{
    ico::IconDir::read(std::io::Cursor::new(bytes.as_slice()))
}

/// Relies on `ico::IconDir::entries` and `ico::IconDirEntry::width`: the
/// width of each entry, in order.
#[verifier::external_body]
fn widths_of(d: &ico::IconDir) -> (r: Vec<u32>)
    ensures
        r@ == entries_of(*d).map_values(|e: (u32, u32, Seq<u8>)| entry_width(e)),
{
    d.entries().iter().map(|e| e.width()).collect()
}

/// Relies on `ico::IconDirEntry::data`: the raw image data of entry `i`.
#[verifier::external_body]
fn data_of(d: &ico::IconDir, i: usize) -> (r: Vec<u8>)
    requires
        i < entries_of(*d).len(),
    ensures
        r@ == entry_data(entries_of(*d)[i as int]),
{
    d.entries()[i].data().to_vec()
}

/// Relies on `ico::IconDirEntry::decode`, whose image it hands on as its
/// width, height and RGBA pixels: decoding checks that the image has the
/// entry's size, and an image holds four bytes for each of its pixels, at
/// least one row and one column. A short BMP palette makes decoding index out of bounds, so such
/// data is left out by `requires`.
#[verifier::external_body]
fn decode_entry(d: &ico::IconDir, i: usize) -> (r: Result<(u32, u32, Vec<u8>), std::io::Error>)
    requires
        i < entries_of(*d).len(),
        !short_palette(entry_data(entries_of(*d)[i as int])),
    ensures
        ({
            let e = entries_of(*d)[i as int];
            match r {
                Ok((w, h, px)) => decoded_pixels(entry_data(e), entry_width(e), entry_height(e))
                    == Some(px@) && w == entry_width(e) && h == entry_height(e) && w >= 1 && h >= 1
                    && px@.len() == 4 * (w as int) * (h as int),
                Err(_) => decoded_pixels(entry_data(e), entry_width(e), entry_height(e)) is None,
            }
        }),
{
    d.entries()[i].decode().map(|img| (img.width(), img.height(), img.into_rgba_data()))
}

/// Relies on `ico::IconImage::write_png`, here into memory, for the image
/// that `ico::IconImage::from_rgba_data` makes of the pixels (which panics
/// unless the size and the length agree, hence `requires`).
#[verifier::external_body]
fn encode_png(width: u32, height: u32, rgba: Vec<u8>) -> (r: Result<Vec<u8>, std::io::Error>)
    requires
        width >= 1,
        height >= 1,
        rgba@.len() == 4 * (width as int) * (height as int),
    ensures
        match r {
            Ok(b) => png_of(width, height, rgba@) == Some(b@),
            Err(_) => png_of(width, height, rgba@) is None,
        },
{
    let img = ico::IconImage::from_rgba_data(width, height, rgba);
    let mut out: Vec<u8> = Vec::new();
    img.write_png(&mut out).map(|_| out)
}

/// Why a container, or one of its entries, could not be unpacked.
#[derive(Debug, Clone, Copy, PartialEq, Eq, Structural)]
pub enum UnpackError {
    /// The bytes are not an icon container.
    ContainerFormat,
    /// No directory of the index is for this width.
    NoResolutionTarget(u32),
    /// The entry's image data is malformed.
    ImageDecode,
    /// The entry's image could not be encoded as PNG.
    Write,
}

fn read_le_u16(b: &Vec<u8>, at: usize) -> (r: u32)
    requires
        at <= 34,
        at + 2 <= b@.len(),
    ensures
        r as int == le_u16(b@, at as int),
{
    b[at] as u32 + 256 * (b[at + 1] as u32)
}

fn read_le_u32(b: &Vec<u8>, at: usize) -> (r: u64)
    requires
        at <= 32,
        at + 4 <= b@.len(),
    ensures
        r as int == le_u32(b@, at as int),
{
    read_le_u16(b, at) as u64 + 65536 * (read_le_u16(b, at + 2) as u64)
}

/// Whether image data is a paletted BMP with a palette shorter than its
/// bit depth can index.
pub fn has_short_palette(data: &Vec<u8>) -> (r: bool)
    ensures
        r == short_palette(data@),
{
    let png = data.len() >= 4 && data[0] == 0x89 && data[1] == 0x50 && data[2] == 0x4e && data[3]
        == 0x47;
    if png || data.len() < 36 {
        return false;
    }
    let bits = read_le_u16(data, 14);
    let capacity: u64 = if bits == 1 {
        2
    } else if bits == 4 {
        16
    } else if bits == 8 {
        256
    } else {
        0
    };
    let used = read_le_u32(data, 32);
    0 < used && used < capacity
}

/// A parsed icon container.
pub struct IconContainer {
    dir: ico::IconDir,
}

impl View for IconContainer {
    type V = Seq<(u32, u32, Seq<u8>)>;

    /// Its entries, in order.
    closed spec fn view(&self) -> Seq<(u32, u32, Seq<u8>)> {
        entries_of(self.dir)
    }
}

/// The widths of entries, in order.
pub open spec fn widths_view(es: Seq<(u32, u32, Seq<u8>)>) -> Seq<u32> {
    es.map_values(|e: (u32, u32, Seq<u8>)| entry_width(e))
}

impl IconContainer {
    /// Parses the bytes of an icon container: `ContainerFormat` exactly where
    /// they are not one.
    pub fn read(bytes: &Vec<u8>) -> (r: Result<IconContainer, UnpackError>)
        ensures
            r is Ok <==> ico_entries(bytes@) is Some,
            r matches Ok(c) ==> ico_entries(bytes@) == Some(c@),
            r is Err ==> r == Err::<IconContainer, UnpackError>(UnpackError::ContainerFormat),
    {
        match parse_icon_dir(bytes) {
            Ok(dir) => Ok(IconContainer { dir }),
            Err(_) => Err(UnpackError::ContainerFormat),
        }
    }

    /// The widths of the entries, in order.
    pub fn widths(&self) -> (r: Vec<u32>)
        ensures
            r@ == widths_view(self@),
    {
        widths_of(&self.dir)
    }

    /// The PNG bytes of entry `i`, or why it cannot be had.
    pub fn render(&self, i: usize) -> (r: Result<Vec<u8>, UnpackError>)
        requires
            i < self@.len(),
        ensures
            match (r, rendered(self@[i as int])) {
                (Ok(b), Ok(c)) => b@ == c,
                (Err(e), Err(f)) => e == f,
                _ => false,
            },
    {
        let data = data_of(&self.dir, i);
        if has_short_palette(&data) {
            return Err(UnpackError::ImageDecode);
        }
        match decode_entry(&self.dir, i) {
            Err(_) => Err(UnpackError::ImageDecode),
            Ok((w, h, px)) => {
                match encode_png(w, h, px) {
                    Ok(b) => Ok(b),
                    Err(_) => Err(UnpackError::Write),
                }
            },
        }
    }
}

/// The file that an entry of width `w` goes to, or why there is none.
pub open spec fn target_of(index: Map<u32, Seq<char>>, w: u32, name: Seq<char>) -> Result<
    Seq<char>,
    UnpackError,
> {
    if index.contains_key(w) {
        Ok(join_path(index[w], name))
    } else {
        Err(UnpackError::NoResolutionTarget(w))
    }
}

/// Whether an executable target is the one that `t` describes.
pub open spec fn target_is(r: Result<String, UnpackError>, t: Result<Seq<char>, UnpackError>) -> bool {
    match (r, t) {
        (Ok(p), Ok(q)) => p@ == q,
        (Err(e), Err(f)) => e == f,
        _ => false,
    }
}

/// The file that each entry of the given widths goes to: the icon name in
/// the directory of the index for its width, or `NoResolutionTarget` where
/// the index has none. Each entry's target depends on its own width alone.
pub fn entry_targets(widths: &Vec<u32>, index: &ResolutionIndex, icon_name: &str) -> (r: Vec<
    Result<String, UnpackError>,
>)
    ensures
        r@.len() == widths@.len(),
        forall|i: int|
            0 <= i < widths@.len() ==> target_is(
                #[trigger] r@[i],
                target_of(index@, widths@[i], icon_name@),
            ),
{
    let mut r: Vec<Result<String, UnpackError>> = Vec::new();
    let mut i: usize = 0;
    while i < widths.len()
        invariant
            i <= widths@.len(),
            r@.len() == i,
            forall|j: int|
                0 <= j < i ==> target_is(#[trigger] r@[j], target_of(index@, widths@[j], icon_name@)),
        decreases widths.len() - i,
    {
        let w = widths[i];
        match index.dir_for(w) {
            Some(d) => {
                let p = join_path_exec(d.as_str(), icon_name);
                r.push(Ok(p));
            },
            None => {
                r.push(Err(UnpackError::NoResolutionTarget(w)));
            },
        }
        i = i + 1;
    }
    r
}

/// What became of one entry of a container.
#[derive(Debug, PartialEq, Eq)]
pub enum EntryOutcome {
    /// Its file exists already: nothing is decoded or written.
    Skipped(String),
    /// These PNG bytes are to be written to this file.
    Write(String, Vec<u8>),
    /// The entry could not be unpacked.
    Failed(UnpackError),
}

/// Whether `o` is what becomes of entry `e` with target `t`, where `exists`
/// tells whether the target file exists already.
pub open spec fn outcome_is(
    o: EntryOutcome,
    t: Result<String, UnpackError>,
    exists: bool,
    e: (u32, u32, Seq<u8>),
) -> bool {
    match t {
        Err(f) => o == EntryOutcome::Failed(f),
        Ok(p) => if exists {
            o matches EntryOutcome::Skipped(q) && q@ == p@
        } else {
            match rendered(e) {
                Ok(b) => o matches EntryOutcome::Write(q, c) && q@ == p@ && c@ == b,
                Err(f) => o == EntryOutcome::Failed(f),
            }
        },
    }
}

/// Unpacks the entries of a container to their targets, where `existing`
/// tells for each entry whether its target file exists already. An entry
/// without a target fails alone; one whose file exists is skipped without
/// decoding; every other one is rendered as PNG, or fails alone. What becomes
/// of an entry depends on that entry, its target and its flag alone.
pub fn unpack_entries(
    container: &IconContainer,
    targets: &Vec<Result<String, UnpackError>>,
    existing: &Vec<bool>,
) -> (r: Vec<EntryOutcome>)
    requires
        targets@.len() == container@.len(),
        existing@.len() == container@.len(),
    ensures
        r@.len() == targets@.len(),
        forall|i: int|
            0 <= i < targets@.len() ==> outcome_is(
                #[trigger] r@[i],
                targets@[i],
                existing@[i],
                container@[i],
            ),
{
    let mut r: Vec<EntryOutcome> = Vec::new();
    let mut i: usize = 0;
    while i < targets.len()
        invariant
            targets@.len() == container@.len(),
            existing@.len() == container@.len(),
            i <= targets@.len(),
            r@.len() == i,
            forall|j: int|
                0 <= j < i ==> outcome_is(#[trigger] r@[j], targets@[j], existing@[j], container@[j]),
        decreases targets.len() - i,
    {
        let o = match &targets[i] {
            Err(e) => EntryOutcome::Failed(*e),
            Ok(p) => if existing[i] {
                EntryOutcome::Skipped(p.clone())
            } else {
                match container.render(i) {
                    Ok(b) => EntryOutcome::Write(p.clone(), b),
                    Err(e) => EntryOutcome::Failed(e),
                }
            },
        };
        r.push(o);
        i = i + 1;
    }
    r
}

/// An entry whose target file exists already is skipped: nothing of it is
/// decoded, and no file is written for it.
pub proof fn lemma_existing_target_skipped(
    o: EntryOutcome,
    t: Result<String, UnpackError>,
    e: (u32, u32, Seq<u8>),
)
    requires
        t is Ok,
        outcome_is(o, t, true, e),
    ensures
        o matches EntryOutcome::Skipped(q) && q@ == t->Ok_0@,
{
}

} // verus!
