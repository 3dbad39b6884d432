use vstd::prelude::*;
use crate::error::{ImageError, ImageResult};
use crate::stream::{ByteOrder, SmartReader, u16_val, u32_val, u16_at, u32_at, u16_from_bytes, u32_from_bytes};

verus! {

/// TIFF tag codes. The recognized ones carry their standard meaning; any
/// other 16-bit code is retained as an opaque numeric tag, not rejected.
#[derive(Copy, Clone, Debug, PartialEq, Eq, Structural)]
pub enum Tag {
    ImageWidth,
    ImageLength,
    BitsPerSample,
    Compression,
    PhotometricInterpretation,
    StripOffsets,
    SamplesPerPixel,
    RowsPerStrip,
    StripByteCounts,
    Predictor,
    Unknown(u16),
}

impl Tag {
    /// The 16-bit code of this tag in a directory entry.
    pub open spec fn spec_code(self) -> u16 {
        match self {
            Tag::ImageWidth => 256,
            Tag::ImageLength => 257,
            Tag::BitsPerSample => 258,
            Tag::Compression => 259,
            Tag::PhotometricInterpretation => 262,
            Tag::StripOffsets => 273,
            Tag::SamplesPerPixel => 277,
            Tag::RowsPerStrip => 278,
            Tag::StripByteCounts => 279,
            Tag::Predictor => 317,
            Tag::Unknown(c) => c,
        }
    }

    #[verifier::when_used_as_spec(spec_code)]
    pub fn code(self) -> (r: u16)
        ensures
            r == self.spec_code(),
    {
        match self {
            Tag::ImageWidth => 256,
            Tag::ImageLength => 257,
            Tag::BitsPerSample => 258,
            Tag::Compression => 259,
            Tag::PhotometricInterpretation => 262,
            Tag::StripOffsets => 273,
            Tag::SamplesPerPixel => 277,
            Tag::RowsPerStrip => 278,
            Tag::StripByteCounts => 279,
            Tag::Predictor => 317,
            Tag::Unknown(c) => c,
        }
    }
}

/// TIFF element types, per the standard type table.
#[derive(Copy, Clone, Debug, PartialEq, Eq, Structural)]
pub enum Type {
    Byte,
    Ascii,
    Short,
    Long,
    Rational,
}

/// The element type for a 16-bit type code; `None` for an unrecognized code,
/// whose whole entry a directory scan skips.
pub open spec fn type_of_code(code: u16) -> Option<Type> {
    if code == 1 {
        Some(Type::Byte)
    } else if code == 2 {
        Some(Type::Ascii)
    } else if code == 3 {
        Some(Type::Short)
    } else if code == 4 {
        Some(Type::Long)
    } else if code == 5 {
        Some(Type::Rational)
    } else {
        None
    }
}

#[verifier::when_used_as_spec(type_of_code)]
pub fn type_from_code(code: u16) -> (r: Option<Type>)
    ensures
        r == type_of_code(code),
{
    if code == 1 {
        Some(Type::Byte)
    } else if code == 2 {
        Some(Type::Ascii)
    } else if code == 3 {
        Some(Type::Short)
    } else if code == 4 {
        Some(Type::Long)
    } else if code == 5 {
        Some(Type::Rational)
    } else {
        None
    }
}

/// Bytes per element of each element type.
pub open spec fn spec_type_width(t: Type) -> int {
    match t {
        Type::Byte => 1,
        Type::Ascii => 1,
        Type::Short => 2,
        Type::Long => 4,
        Type::Rational => 8,
    }
}

pub fn type_width(t: Type) -> (r: u64)
    ensures
        r == spec_type_width(t),
{
    match t {
        Type::Byte => 1,
        Type::Ascii => 1,
        Type::Short => 2,
        Type::Long => 4,
        Type::Rational => 8,
    }
}

/// One directory entry: element type, element count, and the 4-byte field
/// holding either the value itself or a `u32` offset to it.
#[derive(Copy, Clone, Debug)]
pub struct Entry {
    pub type_: Type,
    pub count: u32,
    pub offset: [u8; 4],
}

impl Entry {
    pub fn new(type_: Type, count: u32, offset: [u8; 4]) -> (r: Entry)
        ensures
            r.type_ == type_,
            r.count == count,
            r.offset@ == offset@,
    {
        Entry { type_, count, offset }
    }
}

/// The entry whose tag code is `tag` in `s`, where a later occurrence of the
/// same code overwrites an earlier one (last-wins), or `None`.
pub open spec fn lookup(s: Seq<(u16, Entry)>, tag: u16) -> Option<Entry>
    decreases s.len(),
{
    if s.len() == 0 {
        None
    } else if s.last().0 == tag {
        Some(s.last().1)
    } else {
        lookup(s.drop_last(), tag)
    }
}

/// A tag directory: the mapping from tag codes to entries built from one IFD.
/// Duplicate codes follow the explicit last-wins policy.
#[derive(Debug)]
pub struct Directory {
    pub entries: Vec<(u16, Entry)>,
}

impl Directory {
    /// The entry recorded for `tag`, last occurrence winning.
    pub open spec fn spec_get(&self, tag: u16) -> Option<Entry> {
        lookup(self.entries@, tag)
    }

    pub fn new() -> (r: Directory)
        ensures
            forall|t: u16| r.spec_get(t) is None,
    {
        Directory { entries: Vec::new() }
    }

    /// Records `entry` under `tag`, overwriting what an earlier scan of the
    /// same code recorded.
    pub fn insert(&mut self, tag: u16, entry: Entry)
        ensures
            final(self).spec_get(tag) == Some(entry),
            forall|t: u16|
                t != tag ==> final(self).spec_get(t) == old(self).spec_get(t),
    {
        let ghost s = self.entries@;
        self.entries.push((tag, entry));
        proof {
            assert(self.entries@.drop_last() =~= s);
        }
    }

    pub fn get(&self, tag: u16) -> (r: Option<Entry>)
        ensures
            r == self.spec_get(tag),
    {
        let mut i: usize = self.entries.len();
        proof {
            assert(self.entries@.take(i as int) =~= self.entries@);
        }
        while i > 0
            invariant
                i <= self.entries@.len(),
                lookup(self.entries@, tag) == lookup(self.entries@.take(i as int), tag),
            decreases i,
        {
            let (t, e) = self.entries[i - 1];
            proof {
                assert(self.entries@.take(i as int).last() == self.entries@[i - 1]);
                assert(self.entries@.take(i as int).drop_last() =~= self.entries@.take(
                    i - 1,
                ));
            }
            if t == tag {
                return Some(e);
            }
            i = i - 1;
        }
        None
    }
}



/// A resolved entry value, in its mathematical form: the payload of each
/// `Value` variant as a sequence of plain numbers.
pub ghost enum GValue {
    Unsigned(u32),
    UnsignedVec(Seq<u32>),
    Ascii(Seq<u8>),
    Rational(u32, u32),
    RationalVec(Seq<(u32, u32)>),
}

/// A resolved entry value: scalar or vector forms of the unsigned element
/// types, ASCII payloads, and rationals.
#[derive(Debug)]
pub enum Value {
    /// A single integral element, widened to 32 bits
    Unsigned(u32),
    /// Zero, or two or more, integral elements, each widened to 32 bits
    UnsignedVec(Vec<u32>),
    /// The bytes of an ASCII value
    Ascii(Vec<u8>),
    /// A single rational: numerator and denominator
    Rational(u32, u32),
    /// Zero, or two or more, rationals
    RationalVec(Vec<(u32, u32)>),
}

impl View for Value {
    type V = GValue;

    open spec fn view(&self) -> GValue {
        match self {
            Value::Unsigned(v) => GValue::Unsigned(*v),
            Value::UnsignedVec(vs) => GValue::UnsignedVec(vs@),
            Value::Ascii(bs) => GValue::Ascii(bs@),
            Value::Rational(n, d) => GValue::Rational(*n, *d),
            Value::RationalVec(ps) => GValue::RationalVec(ps@),
        }
    }
}

impl Value {
    /// Narrows to a single `u32`: fails with a format error unless the value
    /// is exactly one integral element.
    pub fn into_u32(self) -> (r: ImageResult<u32>)
        ensures
            match self@ {
                GValue::Unsigned(v) => r == Ok::<u32, ImageError>(v),
                _ => r matches Err(ImageError::FormatError(_)),
            },
    {
        match self {
            Value::Unsigned(v) => Ok(v),
            _ => Err(ImageError::FormatError("expected a single unsigned integer".to_owned())),
        }
    }

    /// Widens to a vector of `u32`: fails with a format error unless every
    /// element is integral.
    pub fn into_u32_vec(self) -> (r: ImageResult<Vec<u32>>)
        ensures
            match self@ {
                GValue::Unsigned(v) => r is Ok && r->Ok_0@ =~= seq![v],
                GValue::UnsignedVec(vs) => r is Ok && r->Ok_0@ == vs,
                _ => r matches Err(ImageError::FormatError(_)),
            },
    {
        match self {
            Value::Unsigned(v) => {
                let mut out: Vec<u32> = Vec::new();
                out.push(v);
                Ok(out)
            }
            Value::UnsignedVec(vs) => Ok(vs),
            _ => Err(ImageError::FormatError("expected unsigned integers".to_owned())),
        }
    }
}

/// The mathematical form of an `Entry`.
pub ghost struct GEntry {
    pub type_: Type,
    pub count: u32,
    pub offset: Seq<u8>,
}

impl View for Entry {
    type V = GEntry;

    open spec fn view(&self) -> GEntry {
        GEntry { type_: self.type_, count: self.count, offset: self.offset@ }
    }
}

/// The value packed directly in the 4-byte field `f`, for an entry whose
/// total byte length fits inline.
pub open spec fn inline_value(o: ByteOrder, t: Type, count: u32, f: Seq<u8>) -> GValue {
    match t {
        Type::Byte => if count == 1 {
            GValue::Unsigned(f[0] as u32)
        } else {
            GValue::UnsignedVec(Seq::new(count as nat, |i: int| f[i] as u32))
        },
        Type::Ascii => GValue::Ascii(f.subrange(0, count as int)),
        Type::Short => if count == 1 {
            GValue::Unsigned(u16_at(f, o, 0) as u32)
        } else {
            GValue::UnsignedVec(Seq::new(count as nat, |i: int| u16_at(f, o, 2 * i) as u32))
        },
        Type::Long => if count == 1 {
            GValue::Unsigned(u32_at(f, o, 0) as u32)
        } else {
            GValue::UnsignedVec(Seq::new(count as nat, |i: int| u32_at(f, o, 4 * i) as u32))
        },
        // eight bytes per element never fit in four; only count == 0 lands here
        Type::Rational => GValue::RationalVec(Seq::empty()),
    }
}

/// The value stored out of line in the stream `b` at absolute offset `off`.
pub open spec fn outline_value(b: Seq<u8>, o: ByteOrder, t: Type, count: u32, off: int) -> GValue {
    match t {
        Type::Byte => GValue::UnsignedVec(Seq::new(count as nat, |i: int| b[off + i] as u32)),
        Type::Ascii => GValue::Ascii(b.subrange(off, off + count)),
        Type::Short => GValue::UnsignedVec(
            Seq::new(count as nat, |i: int| u16_at(b, o, off + 2 * i) as u32),
        ),
        Type::Long => GValue::UnsignedVec(
            Seq::new(count as nat, |i: int| u32_at(b, o, off + 4 * i) as u32),
        ),
        Type::Rational => if count == 1 {
            GValue::Rational(u32_at(b, o, off) as u32, u32_at(b, o, off + 4) as u32)
        } else {
            GValue::RationalVec(
                Seq::new(
                    count as nat,
                    |i: int| (u32_at(b, o, off + 8 * i) as u32, u32_at(b, o, off + 8 * i + 4) as u32),
                ),
            )
        },
    }
}

/// What resolving entry `e` against the stream `b` yields: the inline value
/// when `count * width <= 4`, the pointed-to elements otherwise, and `None`
/// when the pointed-to elements lie beyond the end of the stream.
pub open spec fn resolve_spec(b: Seq<u8>, o: ByteOrder, e: GEntry) -> Option<GValue> {
    let w = spec_type_width(e.type_);
    if e.count * w <= 4 {
        Some(inline_value(o, e.type_, e.count, e.offset))
    } else {
        let off = u32_at(e.offset, o, 0);
        if off + e.count * w <= b.len() {
            Some(outline_value(b, o, e.type_, e.count, off))
        } else {
            None
        }
    }
}



impl Entry {
    /// Lazily resolves this entry to its typed value, reading through
    /// `reader` when the value is stored out of line. Resolution leaves the
    /// cursor positioned arbitrarily; every later access seeks first.
    pub fn val(&self, reader: &mut SmartReader) -> (r: ImageResult<Value>)
        ensures
            final(reader).bytes() == old(reader).bytes(),
            final(reader).byte_order == old(reader).byte_order,
            match resolve_spec(old(reader).bytes(), old(reader).byte_order, self@) {
                Some(g) => r is Ok && r->Ok_0@ == g,
                None => r == Err::<Value, ImageError>(ImageError::IoError),
            },
    {
        let w: u64 = type_width(self.type_);
        let total: u64 = (self.count as u64) * w;
        let order = reader.byte_order;
        let ghost b = reader.bytes();
        if total <= 4 {
            match self.type_ {
                Type::Byte => {
                    if self.count == 1 {
                        Ok(Value::Unsigned(self.offset[0] as u32))
                    } else {
                        let cnt: usize = self.count as usize;
                        let mut v: Vec<u32> = Vec::new();
                        let mut i: usize = 0;
                        while i < cnt
                            invariant
                                i <= cnt,
                                cnt == self.count,
                                cnt <= 4,
                                v@ == Seq::new(i as nat, |j: int| self.offset@[j] as u32),
                            decreases cnt - i,
                        {
                            v.push(self.offset[i] as u32);
                            proof {
                                assert(v@ =~= Seq::new((i + 1) as nat, |j: int| self.offset@[j] as u32));
                            }
                            i = i + 1;
                        }
                        Ok(Value::UnsignedVec(v))
                    }
                }
                Type::Ascii => {
                    let cnt: usize = self.count as usize;
                    let mut v: Vec<u8> = Vec::new();
                    let mut i: usize = 0;
                    while i < cnt
                        invariant
                            i <= cnt,
                            cnt == self.count,
                            cnt <= 4,
                            v@ == self.offset@.subrange(0, i as int),
                        decreases cnt - i,
                    {
                        v.push(self.offset[i]);
                        proof {
                            assert(v@ =~= self.offset@.subrange(0, i + 1));
                        }
                        i = i + 1;
                    }
                    Ok(Value::Ascii(v))
                }
                Type::Short => {
                    if self.count == 1 {
                        Ok(Value::Unsigned(u16_from_bytes(order, self.offset[0], self.offset[1]) as u32))
                    } else {
                        let cnt: usize = self.count as usize;
                        let mut v: Vec<u32> = Vec::new();
                        let mut i: usize = 0;
                        while i < cnt
                            invariant
                                i <= cnt,
                                cnt == self.count,
                                cnt <= 2,
                                order == old(reader).byte_order,
                                v@ == Seq::new(i as nat, |j: int| u16_at(self.offset@, order, 2 * j) as u32),
                            decreases cnt - i,
                        {
                            v.push(u16_from_bytes(order, self.offset[2 * i], self.offset[2 * i + 1]) as u32);
                            proof {
                                assert(v@ =~= Seq::new((i + 1) as nat, |j: int| u16_at(self.offset@, order, 2 * j) as u32));
                            }
                            i = i + 1;
                        }
                        Ok(Value::UnsignedVec(v))
                    }
                }
                Type::Long => {
                    if self.count == 1 {
                        Ok(Value::Unsigned(u32_from_bytes(order, self.offset[0], self.offset[1], self.offset[2], self.offset[3])))
                    } else {
                        let v: Vec<u32> = Vec::new();
                        proof {
                            assert(v@ =~= Seq::new(self.count as nat, |j: int| u32_at(self.offset@, order, 4 * j) as u32));
                        }
                        Ok(Value::UnsignedVec(v))
                    }
                }
                Type::Rational => {
                    let v: Vec<(u32, u32)> = Vec::new();
                    Ok(Value::RationalVec(v))
                }
            }
        } else {
            let off = u32_from_bytes(order, self.offset[0], self.offset[1], self.offset[2], self.offset[3]);
            if (off as u64) + total > reader.data.len() as u64 {
                return Err(ImageError::IoError);
            }
            reader.seek(off);
            match self.type_ {
                Type::Byte => {
                    let cnt: usize = self.count as usize;
                    let mut v: Vec<u32> = Vec::new();
                    let mut i: usize = 0;
                    while i < cnt
                        invariant
                            i <= cnt,
                            cnt == self.count,
                            off + cnt <= b.len(),
                            reader.bytes() == b,
                            reader.byte_order == order,
                            reader.pos() == off + i,
                            v@ == Seq::new(i as nat, |j: int| b[off + j] as u32),
                        decreases cnt - i,
                    {
                        let x = match reader.read_u8() {
                            Ok(x) => x,
                            Err(_) => { return Err(ImageError::IoError); }
                        };
                        v.push(x as u32);
                        proof {
                            assert(v@ =~= Seq::new((i + 1) as nat, |j: int| b[off + j] as u32));
                        }
                        i = i + 1;
                    }
                    Ok(Value::UnsignedVec(v))
                }
                Type::Ascii => {
                    let cnt: usize = self.count as usize;
                    match reader.read_bytes(cnt) {
                        Ok(bs) => Ok(Value::Ascii(bs)),
                        Err(_) => Err(ImageError::IoError),
                    }
                }
                Type::Short => {
                    let cnt: usize = self.count as usize;
                    let mut v: Vec<u32> = Vec::new();
                    let mut i: usize = 0;
                    while i < cnt
                        invariant
                            i <= cnt,
                            cnt == self.count,
                            off + 2 * cnt <= b.len(),
                            reader.bytes() == b,
                            reader.byte_order == order,
                            reader.pos() == off + 2 * i,
                            v@ == Seq::new(i as nat, |j: int| u16_at(b, order, off + 2 * j) as u32),
                        decreases cnt - i,
                    {
                        let x = match reader.read_u16() {
                            Ok(x) => x,
                            Err(_) => { return Err(ImageError::IoError); }
                        };
                        v.push(x as u32);
                        proof {
                            assert(v@ =~= Seq::new((i + 1) as nat, |j: int| u16_at(b, order, off + 2 * j) as u32));
                        }
                        i = i + 1;
                    }
                    Ok(Value::UnsignedVec(v))
                }
                Type::Long => {
                    let cnt: usize = self.count as usize;
                    let mut v: Vec<u32> = Vec::new();
                    let mut i: usize = 0;
                    while i < cnt
                        invariant
                            i <= cnt,
                            cnt == self.count,
                            off + 4 * cnt <= b.len(),
                            reader.bytes() == b,
                            reader.byte_order == order,
                            reader.pos() == off + 4 * i,
                            v@ == Seq::new(i as nat, |j: int| u32_at(b, order, off + 4 * j) as u32),
                        decreases cnt - i,
                    {
                        let x = match reader.read_u32() {
                            Ok(x) => x,
                            Err(_) => { return Err(ImageError::IoError); }
                        };
                        v.push(x);
                        proof {
                            assert(v@ =~= Seq::new((i + 1) as nat, |j: int| u32_at(b, order, off + 4 * j) as u32));
                        }
                        i = i + 1;
                    }
                    Ok(Value::UnsignedVec(v))
                }
                Type::Rational => {
                    if self.count == 1 {
                        let n = match reader.read_u32() {
                            Ok(x) => x,
                            Err(_) => { return Err(ImageError::IoError); }
                        };
                        let d = match reader.read_u32() {
                            Ok(x) => x,
                            Err(_) => { return Err(ImageError::IoError); }
                        };
                        Ok(Value::Rational(n, d))
                    } else {
                        let cnt: usize = self.count as usize;
                        let mut v: Vec<(u32, u32)> = Vec::new();
                        let mut i: usize = 0;
                        while i < cnt
                            invariant
                                i <= cnt,
                                cnt == self.count,
                                off + 8 * cnt <= b.len(),
                                reader.bytes() == b,
                                reader.byte_order == order,
                                reader.pos() == off + 8 * i,
                                v@ == Seq::new(i as nat, |j: int| (u32_at(b, order, off + 8 * j) as u32, u32_at(b, order, off + 8 * j + 4) as u32)),
                            decreases cnt - i,
                        {
                            let n = match reader.read_u32() {
                                Ok(x) => x,
                                Err(_) => { return Err(ImageError::IoError); }
                            };
                            let d = match reader.read_u32() {
                                Ok(x) => x,
                                Err(_) => { return Err(ImageError::IoError); }
                            };
                            v.push((n, d));
                            proof {
                                assert(v@ =~= Seq::new((i + 1) as nat, |j: int| (u32_at(b, order, off + 8 * j) as u32, u32_at(b, order, off + 8 * j + 4) as u32)));
                            }
                            i = i + 1;
                        }
                        Ok(Value::RationalVec(v))
                    }
                }
            }
        }
    }
}

} // verus!
