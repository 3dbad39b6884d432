use vstd::prelude::*;
use crate::error::{ColorType, ImageError, ImageResult};
use crate::stream::{ByteOrder, SmartReader, u16_at, u32_at, u16_from_bytes};
use crate::ifd::{Tag, Type, Entry, GEntry, GValue, Value, Directory, lookup, type_from_code,
    type_of_code, resolve_spec};
use crate::lzw::lzw_decode;
use crate::packbits::packbits_decode;

verus! {

/// How decoded sample values map to light intensity or color.
#[derive(Clone, Copy, Debug, PartialEq, Eq, Structural)]
pub enum PhotometricInterpretation {
    WhiteIsZero,
    BlackIsZero,
    RGB,
    RGBPalette,
    TransparencyMask,
    CMYK,
    YCbCr,
    CIELab,
}

/// The photometric interpretation for a numeric tag value; `None` for an
/// unrecognized code, which is an explicit error, never a default.
pub open spec fn photometric_of(v: u32) -> Option<PhotometricInterpretation> {
    if v == 0 {
        Some(PhotometricInterpretation::WhiteIsZero)
    } else if v == 1 {
        Some(PhotometricInterpretation::BlackIsZero)
    } else if v == 2 {
        Some(PhotometricInterpretation::RGB)
    } else if v == 3 {
        Some(PhotometricInterpretation::RGBPalette)
    } else if v == 4 {
        Some(PhotometricInterpretation::TransparencyMask)
    } else if v == 5 {
        Some(PhotometricInterpretation::CMYK)
    } else if v == 6 {
        Some(PhotometricInterpretation::YCbCr)
    } else if v == 8 {
        Some(PhotometricInterpretation::CIELab)
    } else {
        None
    }
}

#[verifier::when_used_as_spec(photometric_of)]
pub fn photometric_from_u32(v: u32) -> (r: Option<PhotometricInterpretation>)
    ensures
        r == photometric_of(v),
{
    if v == 0 {
        Some(PhotometricInterpretation::WhiteIsZero)
    } else if v == 1 {
        Some(PhotometricInterpretation::BlackIsZero)
    } else if v == 2 {
        Some(PhotometricInterpretation::RGB)
    } else if v == 3 {
        Some(PhotometricInterpretation::RGBPalette)
    } else if v == 4 {
        Some(PhotometricInterpretation::TransparencyMask)
    } else if v == 5 {
        Some(PhotometricInterpretation::CMYK)
    } else if v == 6 {
        Some(PhotometricInterpretation::YCbCr)
    } else if v == 8 {
        Some(PhotometricInterpretation::CIELab)
    } else {
        None
    }
}

/// The strip compression scheme named by the Compression tag.
#[derive(Clone, Copy, Debug, PartialEq, Eq, Structural)]
pub enum CompressionMethod {
    NoCompression,
    Huffman,
    Fax3,
    Fax4,
    LZW,
    JPEG,
    PackBits,
}

/// The compression method for a numeric tag value; `None` for an
/// unrecognized code.
pub open spec fn compression_of(v: u32) -> Option<CompressionMethod> {
    if v == 1 {
        Some(CompressionMethod::NoCompression)
    } else if v == 2 {
        Some(CompressionMethod::Huffman)
    } else if v == 3 {
        Some(CompressionMethod::Fax3)
    } else if v == 4 {
        Some(CompressionMethod::Fax4)
    } else if v == 5 {
        Some(CompressionMethod::LZW)
    } else if v == 6 {
        Some(CompressionMethod::JPEG)
    } else if v == 0x8005 {
        Some(CompressionMethod::PackBits)
    } else {
        None
    }
}

#[verifier::when_used_as_spec(compression_of)]
pub fn compression_from_u32(v: u32) -> (r: Option<CompressionMethod>)
    ensures
        r == compression_of(v),
{
    if v == 1 {
        Some(CompressionMethod::NoCompression)
    } else if v == 2 {
        Some(CompressionMethod::Huffman)
    } else if v == 3 {
        Some(CompressionMethod::Fax3)
    } else if v == 4 {
        Some(CompressionMethod::Fax4)
    } else if v == 5 {
        Some(CompressionMethod::LZW)
    } else if v == 6 {
        Some(CompressionMethod::JPEG)
    } else if v == 0x8005 {
        Some(CompressionMethod::PackBits)
    } else {
        None
    }
}

/// Result of a decoding process
#[derive(Debug)]
pub enum DecodingResult {
    /// A vector of unsigned bytes
    U8(Vec<u8>),
    /// A vector of unsigned words
    U16(Vec<u16>),
}

/// A buffer for image decoding, chosen by the caller to match the resolved
/// color type's bit depth.
#[derive(Debug)]
pub enum DecodingBuffer {
    /// A buffer of unsigned bytes
    U8(Vec<u8>),
    /// A buffer of unsigned words
    U16(Vec<u16>),
}

/// The color type determined by a photometric interpretation together with
/// the bits-per-sample shape; `None` for every combination outside the
/// supported baseline subset.
pub open spec fn color_of(pi: PhotometricInterpretation, bps: Seq<u8>) -> Option<ColorType> {
    if pi == PhotometricInterpretation::RGB && bps == seq![8u8, 8u8, 8u8, 8u8] {
        Some(ColorType::RGBA(8))
    } else if pi == PhotometricInterpretation::RGB && bps == seq![8u8, 8u8, 8u8] {
        Some(ColorType::RGB(8))
    } else if pi == PhotometricInterpretation::RGB && bps == seq![16u8, 16u8, 16u8, 16u8] {
        Some(ColorType::RGBA(16))
    } else if pi == PhotometricInterpretation::RGB && bps == seq![16u8, 16u8, 16u8] {
        Some(ColorType::RGB(16))
    } else if (pi == PhotometricInterpretation::BlackIsZero || pi
        == PhotometricInterpretation::WhiteIsZero) && bps.len() == 1 {
        Some(ColorType::Gray(bps[0]))
    } else {
        None
    }
}

/// The byte order indicated by the two magic bytes at `p`, or `None` when
/// they are neither `II` nor `MM`.
pub open spec fn magic_order(b: Seq<u8>, p: int) -> Option<ByteOrder> {
    if b[p] == 0x49 && b[p + 1] == 0x49 {
        Some(ByteOrder::LittleEndian)
    } else if b[p] == 0x4D && b[p + 1] == 0x4D {
        Some(ByteOrder::BigEndian)
    } else {
        None
    }
}

/// The representation of a TIFF decoder over an in-memory byte stream.
///
/// Currently does not support decoding of interlaced images.
#[derive(Debug)]
pub struct TIFFDecoder {
    pub reader: SmartReader,
    pub byte_order: ByteOrder,
    pub next_ifd: Option<u32>,
    pub ifd: Option<Directory>,
    pub width: u32,
    pub height: u32,
    pub bits_per_sample: Vec<u8>,
    pub samples: u8,
    pub photometric_interpretation: PhotometricInterpretation,
    pub compression_method: CompressionMethod,
}

/// Everything of the decoder but the stream cursor is the same.
pub open spec fn same_but_pos(a: TIFFDecoder, b: TIFFDecoder) -> bool {
    &&& b.reader.bytes() == a.reader.bytes()
    &&& b.reader.byte_order == a.reader.byte_order
    &&& b.byte_order == a.byte_order
    &&& b.next_ifd == a.next_ifd
    &&& b.ifd == a.ifd
    &&& b.width == a.width
    &&& b.height == a.height
    &&& b.bits_per_sample == a.bits_per_sample
    &&& b.samples == a.samples
    &&& b.photometric_interpretation == a.photometric_interpretation
    &&& b.compression_method == a.compression_method
}

impl TIFFDecoder {
    /// Returns `true` if there is at least one more image available.
    pub fn more_images(&self) -> (r: bool)
        ensures
            r == (self.next_ifd is Some),
    {
        match self.next_ifd {
            Some(_) => true,
            None => false,
        }
    }

    /// Returns the byte order
    pub fn byte_order(&self) -> (r: ByteOrder)
        ensures
            r == self.byte_order,
    {
        self.byte_order
    }

    /// Reads a TIFF short value
    pub fn read_short(&mut self) -> (r: ImageResult<u16>)
        ensures
            same_but_pos(*old(self), *final(self)),
            old(self).reader.pos() + 2 <= old(self).reader.bytes().len() ==> (
                r is Ok
                && r->Ok_0 == u16_at(
                    old(self).reader.bytes(),
                    old(self).reader.byte_order,
                    old(self).reader.pos(),
                )
                && final(self).reader.pos() == old(self).reader.pos() + 2
            ),
            old(self).reader.pos() + 2 > old(self).reader.bytes().len() ==> (
                r == Err::<u16, ImageError>(ImageError::IoError)
                && final(self).reader.pos() == old(self).reader.pos()
            ),
    {
        self.reader.read_u16()
    }

    /// Reads a TIFF long value
    pub fn read_long(&mut self) -> (r: ImageResult<u32>)
        ensures
            same_but_pos(*old(self), *final(self)),
            old(self).reader.pos() + 4 <= old(self).reader.bytes().len() ==> (
                r is Ok
                && r->Ok_0 == u32_at(
                    old(self).reader.bytes(),
                    old(self).reader.byte_order,
                    old(self).reader.pos(),
                )
                && final(self).reader.pos() == old(self).reader.pos() + 4
            ),
            old(self).reader.pos() + 4 > old(self).reader.bytes().len() ==> (
                r == Err::<u32, ImageError>(ImageError::IoError)
                && final(self).reader.pos() == old(self).reader.pos()
            ),
    {
        self.reader.read_u32()
    }

    /// Reads a TIFF IFD offset/value field
    pub fn read_offset(&mut self) -> (r: ImageResult<[u8; 4]>)
        ensures
            same_but_pos(*old(self), *final(self)),
            old(self).reader.pos() + 4 <= old(self).reader.bytes().len() ==> (
                r is Ok
                && r->Ok_0@ == old(self).reader.bytes().subrange(
                    old(self).reader.pos(),
                    old(self).reader.pos() + 4,
                )
                && final(self).reader.pos() == old(self).reader.pos() + 4
            ),
            old(self).reader.pos() + 4 > old(self).reader.bytes().len() ==> (
                r == Err::<[u8; 4], ImageError>(ImageError::IoError)
                && final(self).reader.pos() == old(self).reader.pos()
            ),
    {
        let v = match self.reader.read_bytes(4) {
            Ok(v) => v,
            Err(e) => {
                return Err(e);
            },
        };
        let arr: [u8; 4] = [v[0], v[1], v[2], v[3]];
        proof {
            assert(arr@ =~= v@);
        }
        Ok(arr)
    }

    /// Moves the cursor to the specified absolute offset
    pub fn goto_offset(&mut self, offset: u32) -> (r: ImageResult<()>)
        ensures
            same_but_pos(*old(self), *final(self)),
            r == Ok::<(), ImageError>(()),
            final(self).reader.pos() == offset,
    {
        self.reader.seek(offset);
        Ok(())
    }

    /// The color type of the current image, a pure function of the
    /// photometric interpretation and the bits-per-sample shape; every
    /// combination outside the supported baseline is an unsupported-type
    /// error.
    pub fn colortype(&self) -> (r: ImageResult<ColorType>)
        ensures
            match color_of(self.photometric_interpretation, self.bits_per_sample@) {
                Some(ct) => r == Ok::<ColorType, ImageError>(ct),
                None => r matches Err(ImageError::UnsupportedError(_)),
            },
    {
        let bps = &self.bits_per_sample;
        match self.photometric_interpretation {
            PhotometricInterpretation::RGB => {
                if bps.len() == 4 && bps[0] == 8 && bps[1] == 8 && bps[2] == 8 && bps[3] == 8 {
                    proof {
                        assert(bps@ =~= seq![8u8, 8u8, 8u8, 8u8]);
                    }
                    Ok(ColorType::RGBA(8))
                } else if bps.len() == 3 && bps[0] == 8 && bps[1] == 8 && bps[2] == 8 {
                    proof {
                        assert(bps@ =~= seq![8u8, 8u8, 8u8]);
                    }
                    Ok(ColorType::RGB(8))
                } else if bps.len() == 4 && bps[0] == 16 && bps[1] == 16 && bps[2] == 16 && bps[3]
                    == 16 {
                    proof {
                        assert(bps@ =~= seq![16u8, 16u8, 16u8, 16u8]);
                    }
                    Ok(ColorType::RGBA(16))
                } else if bps.len() == 3 && bps[0] == 16 && bps[1] == 16 && bps[2] == 16 {
                    proof {
                        assert(bps@ =~= seq![16u8, 16u8, 16u8]);
                    }
                    Ok(ColorType::RGB(16))
                } else {
                    proof {
                        assert(bps@ != seq![8u8, 8u8, 8u8, 8u8]);
                        assert(bps@ != seq![8u8, 8u8, 8u8]);
                        assert(bps@ != seq![16u8, 16u8, 16u8, 16u8]);
                        assert(bps@ != seq![16u8, 16u8, 16u8]);
                    }
                    Err(ImageError::UnsupportedError(
                        "the bits per sample are unsupported for RGB".to_owned(),
                    ))
                }
            },
            PhotometricInterpretation::BlackIsZero | PhotometricInterpretation::WhiteIsZero => {
                if bps.len() == 1 {
                    Ok(ColorType::Gray(bps[0]))
                } else {
                    Err(ImageError::UnsupportedError(
                        "grayscale images carry a single sample".to_owned(),
                    ))
                }
            },
            _ => Err(ImageError::UnsupportedError(
                "the photometric interpretation is unsupported".to_owned(),
            )),
        }
    }

    /// Consumes the 2-byte magic, selecting the byte order, checks the
    /// 16-bit version value 42 in that order, and records the first
    /// directory offset, zero meaning none.
    pub fn read_header(&mut self) -> (r: ImageResult<()>)
        ensures
            final(self).reader.bytes() == old(self).reader.bytes(),
            final(self).ifd == old(self).ifd,
            final(self).width == old(self).width,
            final(self).height == old(self).height,
            final(self).bits_per_sample == old(self).bits_per_sample,
            final(self).samples == old(self).samples,
            final(self).photometric_interpretation == old(self).photometric_interpretation,
            final(self).compression_method == old(self).compression_method,
            ({
                let b = old(self).reader.bytes();
                let p = old(self).reader.pos();
                if p + 2 > b.len() {
                    r == Err::<(), ImageError>(ImageError::IoError)
                } else {
                    match magic_order(b, p) {
                        None => r matches Err(ImageError::FormatError(_)),
                        Some(ord) => {
                            if p + 4 > b.len() {
                                r == Err::<(), ImageError>(ImageError::IoError)
                            } else if u16_at(b, ord, p + 2) != 42 {
                                r matches Err(ImageError::FormatError(_))
                            } else if p + 8 > b.len() {
                                r == Err::<(), ImageError>(ImageError::IoError)
                            } else if u32_at(b, ord, p + 4) == 0 {
                                // no directories: a decodable image needs at least one
                                r matches Err(ImageError::FormatError(_))
                            } else {
                                &&& r == Ok::<(), ImageError>(())
                                &&& final(self).byte_order == ord
                                &&& final(self).reader.byte_order == ord
                                &&& final(self).reader.pos() == p + 8
                                &&& final(self).next_ifd == Some(u32_at(b, ord, p + 4) as u32)
                            }
                        },
                    }
                }
            }),
    {
        let m0 = match self.reader.read_u8() {
            Ok(v) => v,
            Err(e) => {
                return Err(e);
            },
        };
        let m1 = match self.reader.read_u8() {
            Ok(v) => v,
            Err(e) => {
                return Err(e);
            },
        };
        if m0 == 0x49 && m1 == 0x49 {
            self.byte_order = ByteOrder::LittleEndian;
            self.reader.byte_order = ByteOrder::LittleEndian;
        } else if m0 == 0x4D && m1 == 0x4D {
            self.byte_order = ByteOrder::BigEndian;
            self.reader.byte_order = ByteOrder::BigEndian;
        } else {
            return Err(ImageError::FormatError("TIFF signature not found".to_owned()));
        }
        let version = match self.reader.read_u16() {
            Ok(v) => v,
            Err(e) => {
                return Err(e);
            },
        };
        if version != 42 {
            return Err(ImageError::FormatError("TIFF signature invalid".to_owned()));
        }
        let first = match self.reader.read_u32() {
            Ok(v) => v,
            Err(e) => {
                return Err(e);
            },
        };
        if first == 0 {
            return Err(ImageError::FormatError(
                "the image contains no directories".to_owned(),
            ));
        }
        self.next_ifd = Some(first);
        Ok(())
    }
}


/// The tag code and entry of the 12-byte directory record at `q`, or `None`
/// when its type code is unrecognized and the record is skipped.
pub open spec fn parsed_entry(b: Seq<u8>, o: ByteOrder, q: int) -> Option<(u16, GEntry)> {
    match type_of_code(u16_at(b, o, q + 2) as u16) {
        Some(t) => Some(
            (
                u16_at(b, o, q) as u16,
                GEntry { type_: t, count: u32_at(b, o, q + 4) as u32, offset: b.subrange(q + 8, q + 12) },
            ),
        ),
        None => None,
    }
}

/// The entry recorded for `tag` after scanning the `n` 12-byte records that
/// start at `q`, later records overwriting earlier ones.
pub open spec fn dir_of(b: Seq<u8>, o: ByteOrder, q: int, n: int, tag: u16) -> Option<GEntry>
    decreases n,
{
    if n <= 0 {
        None
    } else {
        match parsed_entry(b, o, q + 12 * (n - 1)) {
            Some(te) => if te.0 == tag {
                Some(te.1)
            } else {
                dir_of(b, o, q, n - 1, tag)
            },
            None => dir_of(b, o, q, n - 1, tag),
        }
    }
}

/// The mathematical form of an optional entry.
pub open spec fn entry_opt_view(e: Option<Entry>) -> Option<GEntry> {
    match e {
        Some(en) => Some(en@),
        None => None,
    }
}

impl TIFFDecoder {
    /// Reads one 12-byte IFD record (tag, type, count, value-or-offset) at
    /// the cursor; a record with an unrecognized type code is consumed whole
    /// and yields `None`.
    fn read_entry(&mut self) -> (r: ImageResult<Option<(u16, Entry)>>)
        ensures
            same_but_pos(*old(self), *final(self)),
            old(self).reader.pos() + 12 <= old(self).reader.bytes().len() ==> (
                final(self).reader.pos() == old(self).reader.pos() + 12
                && r is Ok
                && (match parsed_entry(
                    old(self).reader.bytes(),
                    old(self).reader.byte_order,
                    old(self).reader.pos(),
                ) {
                    Some(te) => (
                        r->Ok_0 is Some
                        && r->Ok_0->Some_0.0 == te.0
                        && r->Ok_0->Some_0.1@ == te.1
                    ),
                    None => r->Ok_0 is None,
                })
            ),
            old(self).reader.pos() + 12 > old(self).reader.bytes().len() ==> (
                r == Err::<Option<(u16, Entry)>, ImageError>(ImageError::IoError)
            ),
    {
        let tag = match self.reader.read_u16() {
            Ok(v) => v,
            Err(e) => {
                return Err(e);
            },
        };
        let type_code = match self.reader.read_u16() {
            Ok(v) => v,
            Err(e) => {
                return Err(e);
            },
        };
        let count = match self.reader.read_u32() {
            Ok(v) => v,
            Err(e) => {
                return Err(e);
            },
        };
        let offset = match self.read_offset() {
            Ok(v) => v,
            Err(e) => {
                return Err(e);
            },
        };
        match type_from_code(type_code) {
            Some(t) => Ok(Some((tag, Entry::new(t, count, offset)))),
            None => Ok(None),
        }
    }

    /// Reads the directory at the pending next-directory offset: a 16-bit
    /// record count, that many 12-byte records with later duplicates
    /// overwriting earlier ones and unrecognized type codes skipped, and the
    /// trailing 32-bit next-directory offset, zero meaning none.
    pub fn read_ifd(&mut self) -> (r: ImageResult<Directory>)
        ensures
            final(self).reader.bytes() == old(self).reader.bytes(),
            final(self).reader.byte_order == old(self).reader.byte_order,
            final(self).byte_order == old(self).byte_order,
            final(self).ifd == old(self).ifd,
            final(self).width == old(self).width,
            final(self).height == old(self).height,
            final(self).bits_per_sample == old(self).bits_per_sample,
            final(self).samples == old(self).samples,
            final(self).photometric_interpretation == old(self).photometric_interpretation,
            final(self).compression_method == old(self).compression_method,
            ({
                let b = old(self).reader.bytes();
                let o = old(self).reader.byte_order;
                match old(self).next_ifd {
                    None => (
                        r matches Err(ImageError::FormatError(_))
                        && final(self).next_ifd == old(self).next_ifd
                    ),
                    Some(off) => {
                        if off + 2 > b.len() {
                            r == Err::<Directory, ImageError>(ImageError::IoError)
                        } else {
                            let n = u16_at(b, o, off as int);
                            if off + 2 + 12 * n + 4 > b.len() {
                                r == Err::<Directory, ImageError>(ImageError::IoError)
                            } else {
                                &&& r is Ok
                                &&& forall|t: u16|
                                    entry_opt_view(#[trigger] lookup(r->Ok_0.entries@, t))
                                        == dir_of(b, o, off + 2, n, t)
                                &&& final(self).next_ifd == (
                                    if u32_at(b, o, off + 2 + 12 * n) == 0 {
                                        None::<u32>
                                    } else {
                                        Some(u32_at(b, o, off + 2 + 12 * n) as u32)
                                    }
                                )
                            }
                        }
                    },
                }
            }),
    {
        let off = match self.next_ifd {
            Some(off) => off,
            None => {
                return Err(ImageError::FormatError(
                    "image file directory not found".to_owned(),
                ));
            },
        };
        self.reader.seek(off);
        let n = match self.reader.read_u16() {
            Ok(v) => v,
            Err(e) => {
                return Err(e);
            },
        };
        let ghost b = self.reader.bytes();
        let ghost o = self.reader.byte_order;
        let mut dir = Directory::new();
        let mut i: usize = 0;
        proof {
            assert forall|t: u16|
                entry_opt_view(#[trigger] lookup(dir.entries@, t)) == dir_of(
                    b,
                    o,
                    off + 2,
                    0,
                    t,
                ) by {
                assert(dir.spec_get(t) is None);
            }
        }
        while i < n as usize
            invariant
                i <= n as usize,
                same_but_pos(*old(self), *self),
                self.reader.bytes() == b,
                self.reader.byte_order == o,
                self.reader.pos() == off + 2 + 12 * (i as int),
                off + 2 <= b.len(),
                n == u16_at(b, o, off as int),
                old(self).next_ifd == Some(off),
                forall|t: u16|
                    entry_opt_view(#[trigger] lookup(dir.entries@, t)) == dir_of(
                        b,
                        o,
                        off + 2,
                        i as int,
                        t,
                    ),
            decreases n as int - i,
        {
            let ghost pos0 = self.reader.pos();
            proof {
                assert(off as int + 2 + 12 * ((i as int + 1) - 1) == pos0);
            }
            match self.read_entry() {
                Err(e) => {
                    return Err(e);
                },
                Ok(Some((t, e))) => {
                    let ghost dir0 = dir;
                    dir.insert(t, e);
                    proof {
                        assert forall|tt: u16|
                            entry_opt_view(#[trigger] lookup(dir.entries@, tt)) == dir_of(
                                b,
                                o,
                                off + 2,
                                i as int + 1,
                                tt,
                            ) by {
                            assert(dir.spec_get(tt) == (if tt == t {
                                Some(e)
                            } else {
                                dir0.spec_get(tt)
                            }));
                        }
                    }
                },
                Ok(None) => {
                    proof {
                        assert forall|tt: u16|
                            entry_opt_view(#[trigger] lookup(dir.entries@, tt)) == dir_of(
                                b,
                                o,
                                off + 2,
                                i as int + 1,
                                tt,
                            ) by {
                            assert(entry_opt_view(dir.spec_get(tt)) == dir_of(
                                b,
                                o,
                                off + 2,
                                i as int,
                                tt,
                            ));
                        }
                    }
                },
            }
            i = i + 1;
        }
        let next = match self.reader.read_u32() {
            Ok(v) => v,
            Err(e) => {
                return Err(e);
            },
        };
        self.next_ifd = if next == 0 {
            None
        } else {
            Some(next)
        };
        Ok(dir)
    }
}


/// The outcome of fetching one tag as a single `u32`.
pub ghost enum TagU32 {
    Missing,
    Io,
    NotInt,
    Val(u32),
}

/// The outcome of fetching one tag as a vector of `u32`.
pub ghost enum TagU32s {
    Missing,
    Io,
    NotInt,
    Val(Seq<u32>),
}

/// Fetching the tag from the directory records at `q` and narrowing it to
/// one `u32`: absent, out-of-stream data, a non-integral or multi-element
/// value, or the value.
pub open spec fn req_u32(b: Seq<u8>, o: ByteOrder, q: int, n: int, tag: Tag) -> TagU32 {
    match dir_of(b, o, q, n, tag.spec_code()) {
        None => TagU32::Missing,
        Some(ge) => match resolve_spec(b, o, ge) {
            None => TagU32::Io,
            Some(g) => match g {
                GValue::Unsigned(v) => TagU32::Val(v),
                _ => TagU32::NotInt,
            },
        },
    }
}

/// Fetching the tag and widening it to a vector of `u32`.
pub open spec fn req_u32_vec(b: Seq<u8>, o: ByteOrder, q: int, n: int, tag: Tag) -> TagU32s {
    match dir_of(b, o, q, n, tag.spec_code()) {
        None => TagU32s::Missing,
        Some(ge) => match resolve_spec(b, o, ge) {
            None => TagU32s::Io,
            Some(g) => match g {
                GValue::Unsigned(v) => TagU32s::Val(seq![v]),
                GValue::UnsignedVec(vs) => TagU32s::Val(vs),
                _ => TagU32s::NotInt,
            },
        },
    }
}

impl TIFFDecoder {
    /// The entries of the current directory.
    pub open spec fn dir(self) -> Seq<(u16, Entry)> {
        self.ifd->Some_0.entries@
    }

    /// Tries to retrieve a tag from the current directory and resolve its
    /// value. Returns `Ok(None)` if the tag is not present.
    fn find_tag(&mut self, tag: Tag) -> (r: ImageResult<Option<Value>>)
        requires
            old(self).ifd is Some,
        ensures
            same_but_pos(*old(self), *final(self)),
            match lookup(old(self).dir(), tag.spec_code()) {
                None => r == Ok::<Option<Value>, ImageError>(None),
                Some(e) => match resolve_spec(
                    old(self).reader.bytes(),
                    old(self).reader.byte_order,
                    e@,
                ) {
                    Some(g) => r is Ok && r->Ok_0 is Some && r->Ok_0->Some_0@ == g,
                    None => r == Err::<Option<Value>, ImageError>(ImageError::IoError),
                },
            },
    {
        let entry_opt = match &self.ifd {
            Some(d) => d.get(tag.code()),
            None => None,
        };
        match entry_opt {
            None => Ok(None),
            Some(entry) => {
                match entry.val(&mut self.reader) {
                    Ok(v) => Ok(Some(v)),
                    Err(e) => Err(e),
                }
            },
        }
    }

    /// Tries to retrieve a tag and narrow it to a single `u32`.
    pub fn find_tag_u32(&mut self, tag: Tag) -> (r: ImageResult<Option<u32>>)
        requires
            old(self).ifd is Some,
        ensures
            same_but_pos(*old(self), *final(self)),
            match lookup(old(self).dir(), tag.spec_code()) {
                None => r == Ok::<Option<u32>, ImageError>(None),
                Some(e) => match resolve_spec(
                    old(self).reader.bytes(),
                    old(self).reader.byte_order,
                    e@,
                ) {
                    None => r == Err::<Option<u32>, ImageError>(ImageError::IoError),
                    Some(g) => match g {
                        GValue::Unsigned(v) => r == Ok::<Option<u32>, ImageError>(Some(v)),
                        _ => r matches Err(ImageError::FormatError(_)),
                    },
                },
            },
    {
        match self.find_tag(tag) {
            Err(e) => Err(e),
            Ok(None) => Ok(None),
            Ok(Some(val)) => match val.into_u32() {
                Ok(v) => Ok(Some(v)),
                Err(e) => Err(e),
            },
        }
    }

    /// Tries to retrieve a tag and widen it to a vector of `u32`.
    pub fn find_tag_u32_vec(&mut self, tag: Tag) -> (r: ImageResult<Option<Vec<u32>>>)
        requires
            old(self).ifd is Some,
        ensures
            same_but_pos(*old(self), *final(self)),
            match lookup(old(self).dir(), tag.spec_code()) {
                None => r is Ok && r->Ok_0 is None,
                Some(e) => match resolve_spec(
                    old(self).reader.bytes(),
                    old(self).reader.byte_order,
                    e@,
                ) {
                    None => r == Err::<Option<Vec<u32>>, ImageError>(ImageError::IoError),
                    Some(g) => match g {
                        GValue::Unsigned(v) => (
                            r is Ok && r->Ok_0 is Some && r->Ok_0->Some_0@ =~= seq![v]
                        ),
                        GValue::UnsignedVec(vs) => (
                            r is Ok && r->Ok_0 is Some && r->Ok_0->Some_0@ == vs
                        ),
                        _ => r matches Err(ImageError::FormatError(_)),
                    },
                },
            },
    {
        match self.find_tag(tag) {
            Err(e) => Err(e),
            Ok(None) => Ok(None),
            Ok(Some(val)) => match val.into_u32_vec() {
                Ok(v) => Ok(Some(v)),
                Err(e) => Err(e),
            },
        }
    }

    /// Retrieves a tag from the current directory, resolving its value; an
    /// absent tag is a format error.
    pub fn get_tag(&mut self, tag: Tag) -> (r: ImageResult<Value>)
        requires
            old(self).ifd is Some,
        ensures
            same_but_pos(*old(self), *final(self)),
            match lookup(old(self).dir(), tag.spec_code()) {
                None => r matches Err(ImageError::FormatError(_)),
                Some(e) => match resolve_spec(
                    old(self).reader.bytes(),
                    old(self).reader.byte_order,
                    e@,
                ) {
                    Some(g) => r is Ok && r->Ok_0@ == g,
                    None => r == Err::<Value, ImageError>(ImageError::IoError),
                },
            },
    {
        match self.find_tag(tag) {
            Err(e) => Err(e),
            Ok(Some(val)) => Ok(val),
            Ok(None) => Err(ImageError::FormatError("required tag not found".to_owned())),
        }
    }

    /// Retrieves a tag and narrows it to a single `u32`; an absent tag is a
    /// format error.
    pub fn get_tag_u32(&mut self, tag: Tag) -> (r: ImageResult<u32>)
        requires
            old(self).ifd is Some,
        ensures
            same_but_pos(*old(self), *final(self)),
            ({
                let b = old(self).reader.bytes();
                let o = old(self).reader.byte_order;
                match lookup(old(self).dir(), tag.spec_code()) {
                    None => r matches Err(ImageError::FormatError(_)),
                    Some(e) => match resolve_spec(b, o, e@) {
                        None => r == Err::<u32, ImageError>(ImageError::IoError),
                        Some(g) => match g {
                            GValue::Unsigned(v) => r == Ok::<u32, ImageError>(v),
                            _ => r matches Err(ImageError::FormatError(_)),
                        },
                    },
                }
            }),
    {
        match self.get_tag(tag) {
            Err(e) => Err(e),
            Ok(val) => val.into_u32(),
        }
    }

    /// Retrieves a tag and widens it to a vector of `u32`; an absent tag is
    /// a format error.
    pub fn get_tag_u32_vec(&mut self, tag: Tag) -> (r: ImageResult<Vec<u32>>)
        requires
            old(self).ifd is Some,
        ensures
            same_but_pos(*old(self), *final(self)),
            ({
                let b = old(self).reader.bytes();
                let o = old(self).reader.byte_order;
                match lookup(old(self).dir(), tag.spec_code()) {
                    None => r matches Err(ImageError::FormatError(_)),
                    Some(e) => match resolve_spec(b, o, e@) {
                        None => r == Err::<Vec<u32>, ImageError>(ImageError::IoError),
                        Some(g) => match g {
                            GValue::Unsigned(v) => r is Ok && r->Ok_0@ =~= seq![v],
                            GValue::UnsignedVec(vs) => r is Ok && r->Ok_0@ == vs,
                            _ => r matches Err(ImageError::FormatError(_)),
                        },
                    },
                }
            }),
    {
        match self.get_tag(tag) {
            Err(e) => Err(e),
            Ok(val) => val.into_u32_vec(),
        }
    }
}


/// The fields of the decoder that one directory determines.
pub ghost struct GDecState {
    pub width: u32,
    pub height: u32,
    pub photometric_interpretation: PhotometricInterpretation,
    pub compression_method: CompressionMethod,
    pub samples: u8,
    pub bits_per_sample: Seq<u8>,
}

/// How loading the next directory ends.
pub ghost enum NextOutcome {
    ErrFormat,
    ErrIo,
    ErrUnsupported,
    Good(GDecState),
}

/// The compression method after the optional Compression tag: absent means
/// no compression; an unrecognized code is an explicit error, never a
/// default.
pub open spec fn step_cm(b: Seq<u8>, o: ByteOrder, q: int, n: int) -> Result<
    CompressionMethod,
    NextOutcome,
> {
    match req_u32(b, o, q, n, Tag::Compression) {
        TagU32::Missing => Ok(CompressionMethod::NoCompression),
        TagU32::Io => Err(NextOutcome::ErrIo),
        TagU32::NotInt => Err(NextOutcome::ErrFormat),
        TagU32::Val(v) => match compression_of(v) {
            Some(cm) => Ok(cm),
            None => Err(NextOutcome::ErrUnsupported),
        },
    }
}

/// The sample count after the optional SamplesPerPixel tag: absent means
/// one sample; any resolved value outside one, three or four is rejected
/// before any pixel work begins.
pub open spec fn step_samples(b: Seq<u8>, o: ByteOrder, q: int, n: int) -> Result<
    u8,
    NextOutcome,
> {
    match req_u32(b, o, q, n, Tag::SamplesPerPixel) {
        TagU32::Missing => Ok(1),
        TagU32::Io => Err(NextOutcome::ErrIo),
        TagU32::NotInt => Err(NextOutcome::ErrFormat),
        TagU32::Val(v) => if v == 1 || v == 3 || v == 4 {
            Ok(v as u8)
        } else {
            Err(NextOutcome::ErrUnsupported)
        },
    }
}

/// The bits-per-sample sequence: its shape depends on the sample count, one
/// value for a single sample and a vector of exactly that many values for
/// three or four. An absent tag means one bit per sample; a vector of the
/// wrong length is malformed; a value that does not fit eight bits is
/// rejected, never narrowed silently.
pub open spec fn step_bits(b: Seq<u8>, o: ByteOrder, q: int, n: int, samples: u8) -> Result<
    Seq<u8>,
    NextOutcome,
> {
    if samples == 1 {
        match req_u32(b, o, q, n, Tag::BitsPerSample) {
            TagU32::Missing => Ok(seq![1u8]),
            TagU32::Io => Err(NextOutcome::ErrIo),
            TagU32::NotInt => Err(NextOutcome::ErrFormat),
            TagU32::Val(v) => if v <= 255 {
                Ok(seq![v as u8])
            } else {
                Err(NextOutcome::ErrUnsupported)
            },
        }
    } else if samples == 3 || samples == 4 {
        match req_u32_vec(b, o, q, n, Tag::BitsPerSample) {
            TagU32s::Missing => Ok(Seq::new(samples as nat, |j: int| 1u8)),
            TagU32s::Io => Err(NextOutcome::ErrIo),
            TagU32s::NotInt => Err(NextOutcome::ErrFormat),
            TagU32s::Val(vs) => if vs.len() != samples {
                Err(NextOutcome::ErrFormat)
            } else if exists|j: int| 0 <= j < vs.len() && vs[j] > 255 {
                Err(NextOutcome::ErrUnsupported)
            } else {
                Ok(vs.map_values(|v: u32| v as u8))
            },
        }
    } else {
        Err(NextOutcome::ErrUnsupported)
    }
}

/// The pending offset after the directory at `off`: the trailing 32-bit
/// field, zero meaning no further pages.
pub open spec fn next_ifd_after(b: Seq<u8>, o: ByteOrder, off: int) -> Option<u32> {
    let n = u16_at(b, o, off);
    if u32_at(b, o, off + 2 + 12 * n) == 0 {
        None
    } else {
        Some(u32_at(b, o, off + 2 + 12 * n) as u32)
    }
}

/// What loading the next image does, from the stream, the byte order and
/// the pending directory offset alone: parses the directory, resolves
/// ImageWidth, ImageLength and PhotometricInterpretation as required tags,
/// and Compression, SamplesPerPixel and BitsPerSample as optional ones with
/// their per-directory defaults, so that no field of an earlier page shows
/// through.
pub open spec fn next_image_spec(b: Seq<u8>, o: ByteOrder, next_ifd: Option<u32>) -> NextOutcome {
    match next_ifd {
        None => NextOutcome::ErrFormat,
        Some(off) => if off + 2 > b.len() {
            NextOutcome::ErrIo
        } else {
            let n = u16_at(b, o, off as int);
            if off + 2 + 12 * n + 4 > b.len() {
                NextOutcome::ErrIo
            } else {
                let q = off + 2;
                match req_u32(b, o, q, n, Tag::ImageWidth) {
                    TagU32::Missing => NextOutcome::ErrFormat,
                    TagU32::NotInt => NextOutcome::ErrFormat,
                    TagU32::Io => NextOutcome::ErrIo,
                    TagU32::Val(w) => match req_u32(b, o, q, n, Tag::ImageLength) {
                        TagU32::Missing => NextOutcome::ErrFormat,
                        TagU32::NotInt => NextOutcome::ErrFormat,
                        TagU32::Io => NextOutcome::ErrIo,
                        TagU32::Val(h) => match req_u32(
                            b,
                            o,
                            q,
                            n,
                            Tag::PhotometricInterpretation,
                        ) {
                            TagU32::Missing => NextOutcome::ErrFormat,
                            TagU32::NotInt => NextOutcome::ErrFormat,
                            TagU32::Io => NextOutcome::ErrIo,
                            TagU32::Val(pv) => match photometric_of(pv) {
                                None => NextOutcome::ErrUnsupported,
                                Some(pi) => match step_cm(b, o, q, n) {
                                    Err(e) => e,
                                    Ok(cm) => match step_samples(b, o, q, n) {
                                        Err(e) => e,
                                        Ok(smp) => match step_bits(b, o, q, n, smp) {
                                            Err(e) => e,
                                            Ok(bits) => NextOutcome::Good(
                                                GDecState {
                                                    width: w,
                                                    height: h,
                                                    photometric_interpretation: pi,
                                                    compression_method: cm,
                                                    samples: smp,
                                                    bits_per_sample: bits,
                                                },
                                            ),
                                        },
                                    },
                                },
                            },
                        },
                    },
                }
            }
        },
    }
}

impl TIFFDecoder {
    /// Reads in the next image, committing the resolved directory and tags
    /// wholesale only on success. If there is no further image in the TIFF
    /// file a format error is returned: to determine whether there are more
    /// images call `more_images` instead.
    pub fn next_image(self) -> (r: ImageResult<TIFFDecoder>)
        ensures
            ({
                let b = self.reader.bytes();
                let o = self.reader.byte_order;
                match next_image_spec(b, o, self.next_ifd) {
                    NextOutcome::ErrFormat => r matches Err(ImageError::FormatError(_)),
                    NextOutcome::ErrIo => r == Err::<TIFFDecoder, ImageError>(ImageError::IoError),
                    NextOutcome::ErrUnsupported => r matches Err(ImageError::UnsupportedError(_)),
                    NextOutcome::Good(st) => {
                        &&& r is Ok
                        &&& r->Ok_0.reader.bytes() == b
                        &&& r->Ok_0.reader.byte_order == o
                        &&& r->Ok_0.byte_order == self.byte_order
                        &&& r->Ok_0.width == st.width
                        &&& r->Ok_0.height == st.height
                        &&& r->Ok_0.photometric_interpretation == st.photometric_interpretation
                        &&& r->Ok_0.compression_method == st.compression_method
                        &&& r->Ok_0.samples == st.samples
                        &&& r->Ok_0.bits_per_sample@ == st.bits_per_sample
                        &&& r->Ok_0.next_ifd == next_ifd_after(b, o, self.next_ifd->Some_0 as int)
                        &&& r->Ok_0.ifd is Some
                        &&& forall|t: u16|
                            entry_opt_view(#[trigger] lookup(r->Ok_0.dir(), t)) == dir_of(
                                b,
                                o,
                                self.next_ifd->Some_0 + 2,
                                u16_at(b, o, self.next_ifd->Some_0 as int),
                                t,
                            )
                    },
                }
            }),
    {
        let mut this = self;
        let dir = match this.read_ifd() {
            Ok(d) => d,
            Err(e) => {
                return Err(e);
            },
        };
        this.ifd = Some(dir);
        this.width = match this.get_tag_u32(Tag::ImageWidth) {
            Ok(v) => v,
            Err(e) => {
                return Err(e);
            },
        };
        this.height = match this.get_tag_u32(Tag::ImageLength) {
            Ok(v) => v,
            Err(e) => {
                return Err(e);
            },
        };
        let pv = match this.get_tag_u32(Tag::PhotometricInterpretation) {
            Ok(v) => v,
            Err(e) => {
                return Err(e);
            },
        };
        this.photometric_interpretation = match photometric_from_u32(pv) {
            Some(pi) => pi,
            None => {
                return Err(ImageError::UnsupportedError(
                    "the image is using an unknown photometric interpretation".to_owned(),
                ));
            },
        };
        match this.find_tag_u32(Tag::Compression) {
            Err(e) => {
                return Err(e);
            },
            Ok(Some(v)) => {
                match compression_from_u32(v) {
                    Some(cm) => {
                        this.compression_method = cm;
                    },
                    None => {
                        return Err(ImageError::UnsupportedError(
                            "unknown compression method".to_owned(),
                        ));
                    },
                }
            },
            Ok(None) => {
                this.compression_method = CompressionMethod::NoCompression;
            },
        }
        match this.find_tag_u32(Tag::SamplesPerPixel) {
            Err(e) => {
                return Err(e);
            },
            Ok(Some(v)) => {
                if v == 1 || v == 3 || v == 4 {
                    this.samples = v as u8;
                } else {
                    return Err(ImageError::UnsupportedError(
                        "the samples per pixel are unsupported".to_owned(),
                    ));
                }
            },
            Ok(None) => {
                this.samples = 1;
            },
        }
        if this.samples == 1 {
            match this.find_tag_u32(Tag::BitsPerSample) {
                Err(e) => {
                    return Err(e);
                },
                Ok(Some(v)) => {
                    if v > 255 {
                        return Err(ImageError::UnsupportedError(
                            "the bits per sample do not fit eight bits".to_owned(),
                        ));
                    }
                    let mut bits: Vec<u8> = Vec::new();
                    bits.push(v as u8);
                    proof {
                        assert(bits@ =~= seq![v as u8]);
                    }
                    this.bits_per_sample = bits;
                },
                Ok(None) => {
                    let mut bits: Vec<u8> = Vec::new();
                    bits.push(1);
                    proof {
                        assert(bits@ =~= seq![1u8]);
                    }
                    this.bits_per_sample = bits;
                },
            }
        } else if this.samples == 3 || this.samples == 4 {
            match this.find_tag_u32_vec(Tag::BitsPerSample) {
                Err(e) => {
                    return Err(e);
                },
                Ok(Some(vs)) => {
                    if vs.len() != this.samples as usize {
                        return Err(ImageError::FormatError(
                            "the bits per sample do not match the sample count".to_owned(),
                        ));
                    }
                    let mut bits: Vec<u8> = Vec::new();
                    let mut too_wide = false;
                    let mut i: usize = 0;
                    while i < vs.len()
                        invariant
                            i <= vs@.len(),
                            too_wide <==> (exists|j: int| 0 <= j < i && vs@[j] > 255),
                            !too_wide ==> bits@ == vs@.subrange(0, i as int).map_values(
                                |v: u32| v as u8,
                            ),
                        decreases vs@.len() - i,
                    {
                        let v = vs[i];
                        if v > 255 {
                            too_wide = true;
                        } else if !too_wide {
                            bits.push(v as u8);
                            proof {
                                assert(bits@ =~= vs@.subrange(0, i + 1).map_values(
                                    |v: u32| v as u8,
                                ));
                            }
                        }
                        i = i + 1;
                    }
                    if too_wide {
                        return Err(ImageError::UnsupportedError(
                            "the bits per sample do not fit eight bits".to_owned(),
                        ));
                    }
                    proof {
                        assert(vs@.subrange(0, vs@.len() as int) =~= vs@);
                    }
                    this.bits_per_sample = bits;
                },
                Ok(None) => {
                    let cnt: usize = this.samples as usize;
                    let mut bits: Vec<u8> = Vec::new();
                    let mut i: usize = 0;
                    while i < cnt
                        invariant
                            i <= cnt,
                            bits@ == Seq::new(i as nat, |j: int| 1u8),
                        decreases cnt - i,
                    {
                        bits.push(1);
                        proof {
                            assert(bits@ =~= Seq::new((i + 1) as nat, |j: int| 1u8));
                        }
                        i = i + 1;
                    }
                    this.bits_per_sample = bits;
                },
            }
        } else {
            return Err(ImageError::UnsupportedError(
                "the samples per pixel are unsupported".to_owned(),
            ));
        }
        Ok(this)
    }
}


/// How header parsing ends: the selected byte order and the pending first
/// directory offset, or the error.
pub ghost enum HeaderOutcome {
    HErrIo,
    HErrFormat,
    HOk(ByteOrder, Option<u32>),
}

/// What parsing the 8-byte header at `p` yields: the byte order from the
/// magic, the version check against 42, and the first-directory offset. A
/// zero offset means no directories are present, which is immediately an
/// error: a decodable image requires at least one.
pub open spec fn header_spec(b: Seq<u8>, p: int) -> HeaderOutcome {
    if p + 2 > b.len() {
        HeaderOutcome::HErrIo
    } else {
        match magic_order(b, p) {
            None => HeaderOutcome::HErrFormat,
            Some(ord) => if p + 4 > b.len() {
                HeaderOutcome::HErrIo
            } else if u16_at(b, ord, p + 2) != 42 {
                HeaderOutcome::HErrFormat
            } else if p + 8 > b.len() {
                HeaderOutcome::HErrIo
            } else if u32_at(b, ord, p + 4) == 0 {
                HeaderOutcome::HErrFormat
            } else {
                HeaderOutcome::HOk(ord, Some(u32_at(b, ord, p + 4) as u32))
            },
        }
    }
}

impl TIFFDecoder {
    /// Initializes the decoder: parses the header and loads the first
    /// directory.
    pub fn init(self) -> (r: ImageResult<TIFFDecoder>)
        ensures
            ({
                let b = self.reader.bytes();
                match header_spec(b, self.reader.pos()) {
                    HeaderOutcome::HErrIo => r == Err::<TIFFDecoder, ImageError>(
                        ImageError::IoError,
                    ),
                    HeaderOutcome::HErrFormat => r matches Err(ImageError::FormatError(_)),
                    HeaderOutcome::HOk(ord, nifd) => match next_image_spec(b, ord, nifd) {
                        NextOutcome::ErrFormat => r matches Err(ImageError::FormatError(_)),
                        NextOutcome::ErrIo => r == Err::<TIFFDecoder, ImageError>(
                            ImageError::IoError,
                        ),
                        NextOutcome::ErrUnsupported => r matches Err(
                            ImageError::UnsupportedError(_),
                        ),
                        NextOutcome::Good(st) => {
                            &&& r is Ok
                            &&& r->Ok_0.reader.bytes() == b
                            &&& r->Ok_0.reader.byte_order == ord
                            &&& r->Ok_0.byte_order == ord
                            &&& r->Ok_0.width == st.width
                            &&& r->Ok_0.height == st.height
                            &&& r->Ok_0.photometric_interpretation
                                == st.photometric_interpretation
                            &&& r->Ok_0.compression_method == st.compression_method
                            &&& r->Ok_0.samples == st.samples
                            &&& r->Ok_0.bits_per_sample@ == st.bits_per_sample
                            &&& r->Ok_0.next_ifd == next_ifd_after(b, ord, nifd->Some_0 as int)
                            &&& r->Ok_0.ifd is Some
                            &&& forall|t: u16|
                                entry_opt_view(#[trigger] lookup(r->Ok_0.dir(), t)) == dir_of(
                                    b,
                                    ord,
                                    nifd->Some_0 + 2,
                                    u16_at(b, ord, nifd->Some_0 as int),
                                    t,
                                )
                        },
                    },
                }
            }),
    {
        let mut this = self;
        match this.read_header() {
            Ok(()) => {},
            Err(e) => {
                return Err(e);
            },
        }
        this.next_image()
    }

    /// Creates a new decoder over the byte stream `r`: parses the header and
    /// loads the first directory, so that a decoder is handed out only for a
    /// stream whose first image loads.
    pub fn new(r: Vec<u8>) -> (res: ImageResult<TIFFDecoder>)
        ensures
            ({
                let b = r@;
                match header_spec(b, 0) {
                    HeaderOutcome::HErrIo => res == Err::<TIFFDecoder, ImageError>(
                        ImageError::IoError,
                    ),
                    HeaderOutcome::HErrFormat => res matches Err(ImageError::FormatError(_)),
                    HeaderOutcome::HOk(ord, nifd) => match next_image_spec(b, ord, nifd) {
                        NextOutcome::ErrFormat => res matches Err(ImageError::FormatError(_)),
                        NextOutcome::ErrIo => res == Err::<TIFFDecoder, ImageError>(
                            ImageError::IoError,
                        ),
                        NextOutcome::ErrUnsupported => res matches Err(
                            ImageError::UnsupportedError(_),
                        ),
                        NextOutcome::Good(st) => {
                            &&& res is Ok
                            &&& res->Ok_0.reader.bytes() == b
                            &&& res->Ok_0.byte_order == ord
                            &&& res->Ok_0.width == st.width
                            &&& res->Ok_0.height == st.height
                            &&& res->Ok_0.photometric_interpretation
                                == st.photometric_interpretation
                            &&& res->Ok_0.compression_method == st.compression_method
                            &&& res->Ok_0.samples == st.samples
                            &&& res->Ok_0.bits_per_sample@ == st.bits_per_sample
                            &&& res->Ok_0.next_ifd == next_ifd_after(b, ord, nifd->Some_0 as int)
                            &&& res->Ok_0.ifd is Some
                        },
                    },
                }
            }),
    {
        let reader = SmartReader::new(r, ByteOrder::LittleEndian);
        let mut bits: Vec<u8> = Vec::new();
        bits.push(1);
        proof {
            assert(bits@ =~= seq![1u8]);
        }
        let dec = TIFFDecoder {
            reader,
            byte_order: ByteOrder::LittleEndian,
            next_ifd: None,
            ifd: None,
            width: 0,
            height: 0,
            bits_per_sample: bits,
            samples: 1,
            photometric_interpretation: PhotometricInterpretation::BlackIsZero,
            compression_method: CompressionMethod::NoCompression,
        };
        dec.init()
    }
}


/// The number of samples per pixel the horizontal predictor is defined for,
/// or `None` where the color type is outside its domain.
pub open spec fn predictor_samples(ct: ColorType) -> Option<int> {
    match ct {
        ColorType::Gray(n) => if n == 8 || n == 16 {
            Some(1)
        } else {
            None
        },
        ColorType::RGB(n) => if n == 8 || n == 16 {
            Some(3)
        } else {
            None
        },
        ColorType::RGBA(n) => if n == 8 || n == 16 {
            Some(4)
        } else {
            None
        },
        _ => None,
    }
}

/// Undoes horizontal differencing across a fully materialized pixel buffer
/// of `size.0 * size.1` pixels, wrapping on overflow; defined only for Gray,
/// RGB and RGBA at 8 or 16 bits.
pub fn rev_hpredict(image: DecodingResult, size: (u32, u32), color_type: ColorType) -> (r:
    ImageResult<DecodingResult>)
    requires
        ({
            match predictor_samples(color_type) {
                Some(s) => match image {
                    DecodingResult::U8(b) => b@.len() == (size.0 as int) * (size.1 as int) * s,
                    DecodingResult::U16(b) => b@.len() == (size.0 as int) * (size.1 as int) * s,
                },
                None => true,
            }
        }),
    ensures
        ({
            match predictor_samples(color_type) {
                None => r matches Err(ImageError::UnsupportedError(_)),
                Some(s) => match image {
                    DecodingResult::U8(b) => (
                        r is Ok && r->Ok_0 is U8 && r->Ok_0->U8_0@.len() == b@.len()
                        && forall|k: int|
                            0 <= k < b@.len() ==> r->Ok_0->U8_0@[k] == crate::predict::unpred8(
                                b@,
                                (size.0 as int) * s,
                                s,
                                k,
                            )
                    ),
                    DecodingResult::U16(b) => (
                        r is Ok && r->Ok_0 is U16 && r->Ok_0->U16_0@.len() == b@.len()
                        && forall|k: int|
                            0 <= k < b@.len() ==> r->Ok_0->U16_0@[k] == crate::predict::unpred16(
                                b@,
                                (size.0 as int) * s,
                                s,
                                k,
                            )
                    ),
                },
            }
        }),
{
    let samples: usize = match color_type {
        ColorType::Gray(n) if n == 8 || n == 16 => 1,
        ColorType::RGB(n) if n == 8 || n == 16 => 3,
        ColorType::RGBA(n) if n == 8 || n == 16 => 4,
        _ => {
            return Err(ImageError::UnsupportedError(
                "the horizontal predictor is unsupported for this color type".to_owned(),
            ));
        },
    };
    match image {
        DecodingResult::U8(buf) => Ok(
            DecodingResult::U8(crate::predict::rev_hpredict_nsamp8(buf, size, samples)),
        ),
        DecodingResult::U16(buf) => Ok(
            DecodingResult::U16(crate::predict::rev_hpredict_nsamp16(buf, size, samples)),
        ),
    }
}

/// The bytes a strip yields once located and decompressed: the raw bytes for
/// uncompressed data, the bounded LZW or PackBits decoding otherwise, and an
/// error for data past the stream end, a malformed or oversize encoding, or
/// an unsupported method.
pub ghost enum StripSrc {
    SIo,
    SFormat,
    SUnsupported,
    SBytes(Seq<u8>),
}

/// See `StripSrc`.
pub open spec fn strip_bytes(
    b: Seq<u8>,
    cm: CompressionMethod,
    off: int,
    len_: int,
    max: int,
) -> StripSrc {
    if cm == CompressionMethod::NoCompression {
        if off + len_ <= b.len() {
            StripSrc::SBytes(b.subrange(off, off + len_))
        } else {
            StripSrc::SIo
        }
    } else if cm == CompressionMethod::LZW {
        if off + len_ <= b.len() {
            match lzw_decode(b.subrange(off, off + len_)) {
                Some(o2) => if o2.len() <= max {
                    StripSrc::SBytes(o2)
                } else {
                    StripSrc::SFormat
                },
                None => StripSrc::SFormat,
            }
        } else {
            StripSrc::SIo
        }
    } else if cm == CompressionMethod::PackBits {
        if off + len_ <= b.len() {
            match packbits_decode(b.subrange(off, off + len_)) {
                Some(o2) => if o2.len() <= max {
                    StripSrc::SBytes(o2)
                } else {
                    StripSrc::SFormat
                },
                None => StripSrc::SFormat,
            }
        } else {
            StripSrc::SIo
        }
    } else {
        StripSrc::SUnsupported
    }
}

impl TIFFDecoder {
    /// Decompresses the strip at `offset` of compressed length `length` into
    /// the supplied buffer, routing the bytes through the decompressor the
    /// current compression method names, reading per-sample words in the
    /// configured byte order for 16-bit images, and inverting grayscale
    /// samples under WhiteIsZero. Returns the number of elements written.
    ///
    /// `max_uncompressed_length` is the caller's fixed output bound: the
    /// supplied buffer must hold that many elements (half as many 16-bit
    /// words), or `length` of them when the data is uncompressed, so that no
    /// strip can overrun it; decoded data that would exceed the bound is an
    /// error inside the decompressors, never a truncated success.
    pub fn expand_strip(
        &mut self,
        buffer: &mut DecodingBuffer,
        offset: u32,
        length: u32,
        max_uncompressed_length: usize,
    ) -> (r: ImageResult<usize>)
        requires
            ({
                let need: int = if old(self).compression_method
                    == CompressionMethod::NoCompression {
                    length as int
                } else {
                    max_uncompressed_length as int
                };
                match *old(buffer) {
                    DecodingBuffer::U8(v) => v@.len() >= need,
                    DecodingBuffer::U16(v) => v@.len() >= need / 2,
                }
            }),
        ensures
            same_but_pos(*old(self), *final(self)),
            ({
                let b = old(self).reader.bytes();
                let o = old(self).reader.byte_order;
                let pi = old(self).photometric_interpretation;
                match color_of(pi, old(self).bits_per_sample@) {
                    None => (
                        r matches Err(ImageError::UnsupportedError(_))
                        && *final(buffer) == *old(buffer)
                    ),
                    Some(ct) => match strip_bytes(
                        b,
                        old(self).compression_method,
                        offset as int,
                        length as int,
                        max_uncompressed_length as int,
                    ) {
                        StripSrc::SIo => (
                            r == Err::<usize, ImageError>(ImageError::IoError)
                            && *final(buffer) == *old(buffer)
                        ),
                        StripSrc::SFormat => (
                            r matches Err(ImageError::FormatError(_))
                            && *final(buffer) == *old(buffer)
                        ),
                        StripSrc::SUnsupported => (
                            r matches Err(ImageError::UnsupportedError(_))
                            && *final(buffer) == *old(buffer)
                        ),
                        StripSrc::SBytes(data) => match *old(buffer) {
                            DecodingBuffer::U8(v0) => {
                                if (ct == ColorType::RGB(8) || ct == ColorType::RGBA(8)) {
                                    &&& r == Ok::<usize, ImageError>(data.len() as usize)
                                    &&& (*final(buffer)) is U8
                                    &&& (*final(buffer))->U8_0@.len() == v0@.len()
                                    &&& forall|j: int|
                                        0 <= j < data.len() ==> (*final(buffer))->U8_0@[j] == data[j]
                                    &&& forall|j: int|
                                        data.len() <= j < v0@.len() ==> (*final(buffer))->U8_0@[j] == v0@[j]
                                } else if (ct matches ColorType::Gray(bits) && bits <= 8) {
                                    &&& r == Ok::<usize, ImageError>(data.len() as usize)
                                    &&& (*final(buffer)) is U8
                                    &&& (*final(buffer))->U8_0@.len() == v0@.len()
                                    &&& forall|j: int|
                                        0 <= j < data.len() ==> (*final(buffer))->U8_0@[j] == (
                                            if pi == PhotometricInterpretation::WhiteIsZero {
                                                (255 - data[j]) as u8
                                            } else {
                                                data[j]
                                            }
                                        )
                                    &&& forall|j: int|
                                        data.len() <= j < v0@.len() ==> (*final(buffer))->U8_0@[j] == v0@[j]
                                } else {
                                    r matches Err(ImageError::UnsupportedError(_)) && *final(buffer) == *old(buffer)
                                }
                            },
                            DecodingBuffer::U16(v0) => {
                                if (ct == ColorType::RGB(16) || ct == ColorType::RGBA(16)) {
                                    &&& r == Ok::<usize, ImageError>((data.len() / 2) as usize)
                                    &&& (*final(buffer)) is U16
                                    &&& (*final(buffer))->U16_0@.len() == v0@.len()
                                    &&& forall|j: int|
                                        0 <= j < data.len() / 2 ==> (*final(buffer))->U16_0@[j] == u16_at(data, o, 2 * j)
                                    &&& forall|j: int|
                                        data.len() / 2 <= j < v0@.len() ==> (*final(buffer))->U16_0@[j] == v0@[j]
                                } else if ct == ColorType::Gray(16) {
                                    &&& r == Ok::<usize, ImageError>((data.len() / 2) as usize)
                                    &&& (*final(buffer)) is U16
                                    &&& (*final(buffer))->U16_0@.len() == v0@.len()
                                    &&& forall|j: int|
                                        0 <= j < data.len() / 2 ==> (*final(buffer))->U16_0@[j] == (
                                            if pi == PhotometricInterpretation::WhiteIsZero {
                                                (0xffff - u16_at(data, o, 2 * j)) as u16
                                            } else {
                                                u16_at(data, o, 2 * j) as u16
                                            }
                                        )
                                    &&& forall|j: int|
                                        data.len() / 2 <= j < v0@.len() ==> (*final(buffer))->U16_0@[j] == v0@[j]
                                } else {
                                    r matches Err(ImageError::UnsupportedError(_)) && *final(buffer) == *old(buffer)
                                }
                            },
                        },
                    },
                }
            }),
    {
        let ct = match self.colortype() {
            Ok(ct) => ct,
            Err(e) => {
                return Err(e);
            },
        };
        self.reader.seek(offset);
        let order = self.reader.byte_order;
        let pi = self.photometric_interpretation;
        let data: Vec<u8> = match self.compression_method {
            CompressionMethod::NoCompression => {
                match self.reader.read_bytes(length as usize) {
                    Ok(d) => d,
                    Err(e) => {
                        return Err(e);
                    },
                }
            },
            CompressionMethod::LZW => {
                let comp = match self.reader.read_bytes(length as usize) {
                    Ok(d) => d,
                    Err(e) => {
                        return Err(e);
                    },
                };
                match crate::lzw::lzw_decompress(&comp, max_uncompressed_length) {
                    Ok(d) => d,
                    Err(e) => {
                        return Err(e);
                    },
                }
            },
            CompressionMethod::PackBits => {
                let comp = match self.reader.read_bytes(length as usize) {
                    Ok(d) => d,
                    Err(e) => {
                        return Err(e);
                    },
                };
                match crate::packbits::packbits_decompress(&comp, max_uncompressed_length) {
                    Ok(d) => d,
                    Err(e) => {
                        return Err(e);
                    },
                }
            },
            _ => {
                return Err(ImageError::UnsupportedError(
                    "the compression method is unsupported".to_owned(),
                ));
            },
        };
        let ghost gdata = data@;
        match buffer {
            DecodingBuffer::U8(v) => {
                let eight = match ct {
                    ColorType::RGB(n) if n == 8 => true,
                    ColorType::RGBA(n) if n == 8 => true,
                    _ => false,
                };
                let gray = match ct {
                    ColorType::Gray(n) if n <= 8 => true,
                    _ => false,
                };
                if eight {
                    let mut j: usize = 0;
                    while j < data.len()
                        invariant
                            j <= gdata.len(),
                            data@ == gdata,
                            gdata.len() <= v@.len(),
                            forall|k: int| 0 <= k < j ==> v@[k] == gdata[k],
                            forall|k: int| j <= k < v@.len() ==> v@[k] == (*old(buffer))->U8_0@[k],
                            v@.len() == (*old(buffer))->U8_0@.len(),
                        decreases gdata.len() - j,
                    {
                        v[j] = data[j];
                        j = j + 1;
                    }
                    Ok(data.len())
                } else if gray {
                    let invert = match pi {
                        PhotometricInterpretation::WhiteIsZero => true,
                        _ => false,
                    };
                    let mut j: usize = 0;
                    while j < data.len()
                        invariant
                            j <= gdata.len(),
                            data@ == gdata,
                            gdata.len() <= v@.len(),
                            invert == (pi == PhotometricInterpretation::WhiteIsZero),
                            forall|k: int|
                                0 <= k < j ==> v@[k] == (if invert {
                                    (255 - gdata[k]) as u8
                                } else {
                                    gdata[k]
                                }),
                            forall|k: int| j <= k < v@.len() ==> v@[k] == (*old(buffer))->U8_0@[k],
                            v@.len() == (*old(buffer))->U8_0@.len(),
                        decreases gdata.len() - j,
                    {
                        let d = data[j];
                        v[j] = if invert {
                            255 - d
                        } else {
                            d
                        };
                        j = j + 1;
                    }
                    Ok(data.len())
                } else {
                    Err(ImageError::UnsupportedError(
                        "the color type does not match the buffer width".to_owned(),
                    ))
                }
            },
            DecodingBuffer::U16(v) => {
                let sixteen = match ct {
                    ColorType::RGB(n) if n == 16 => true,
                    ColorType::RGBA(n) if n == 16 => true,
                    _ => false,
                };
                let gray16 = match ct {
                    ColorType::Gray(n) if n == 16 => true,
                    _ => false,
                };
                if sixteen {
                    let words = data.len() / 2;
                    let mut j: usize = 0;
                    while j < words
                        invariant
                            j <= words,
                            words == gdata.len() / 2,
                            gdata.len() <= usize::MAX,
                            data@ == gdata,
                            words <= v@.len(),
                            forall|k: int| 0 <= k < j ==> v@[k] == u16_at(gdata, order, 2 * k),
                            forall|k: int| j <= k < v@.len() ==> v@[k] == (*old(buffer))->U16_0@[k],
                            v@.len() == (*old(buffer))->U16_0@.len(),
                        decreases words - j,
                    {
                        v[j] = u16_from_bytes(order, data[2 * j], data[2 * j + 1]);
                        j = j + 1;
                    }
                    Ok(words)
                } else if gray16 {
                    let invert = match pi {
                        PhotometricInterpretation::WhiteIsZero => true,
                        _ => false,
                    };
                    let words = data.len() / 2;
                    let mut j: usize = 0;
                    while j < words
                        invariant
                            j <= words,
                            words == gdata.len() / 2,
                            gdata.len() <= usize::MAX,
                            data@ == gdata,
                            words <= v@.len(),
                            invert == (pi == PhotometricInterpretation::WhiteIsZero),
                            forall|k: int|
                                0 <= k < j ==> v@[k] == (if invert {
                                    (0xffff - u16_at(gdata, order, 2 * k)) as u16
                                } else {
                                    u16_at(gdata, order, 2 * k) as u16
                                }),
                            forall|k: int| j <= k < v@.len() ==> v@[k] == (*old(buffer))->U16_0@[k],
                            v@.len() == (*old(buffer))->U16_0@.len(),
                        decreases words - j,
                    {
                        let w = u16_from_bytes(order, data[2 * j], data[2 * j + 1]);
                        v[j] = if invert {
                            0xffff - w
                        } else {
                            w
                        };
                        j = j + 1;
                    }
                    Ok(words)
                } else {
                    Err(ImageError::UnsupportedError(
                        "the color type does not match the buffer width".to_owned(),
                    ))
                }
            },
        }
    }
}


/// Every successfully loaded page satisfies the shape invariant of the
/// data model: the sample count is one, three or four, and the
/// bits-per-sample sequence holds exactly one entry per sample.
pub proof fn lemma_bits_shape(b: Seq<u8>, o: ByteOrder, next_ifd: Option<u32>)
    ensures
        match next_image_spec(b, o, next_ifd) {
            NextOutcome::Good(st) => (st.samples == 1 || st.samples == 3 || st.samples == 4)
                && st.bits_per_sample.len() == st.samples,
            _ => true,
        },
{
}

/// Calling `next_image` when no next-directory offset is pending — exactly
/// when `more_images` reports false — always fails with a format error,
/// whatever the stream holds, rather than reading anything.
pub proof fn lemma_next_image_exhausted(b: Seq<u8>, o: ByteOrder)
    ensures
        next_image_spec(b, o, None) == NextOutcome::ErrFormat,
{
}


} // verus!
