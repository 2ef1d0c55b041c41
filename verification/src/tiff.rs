use vstd::prelude::*;

use crate::byte_stream::ByteOrder;
use crate::byte_stream::ByteStream;
use crate::byte_stream::lemma_u32_round_trip;
use crate::byte_stream::u16_at;
use crate::byte_stream::u32_at;
use crate::byte_stream::u32_bytes;
use crate::error::TiffError;

verus! {

/// The fixed-size file header that follows the two-byte order marker.
#[derive(Clone, Copy, Debug, PartialEq, Eq, Structural)]
pub struct TiffHeader {
    /// Must equal 42 for the file to be recognized.
    pub magic: u16,
    /// Offset, from the start of the source, of the first image file
    /// directory.
    pub ifd_start: u32,
}

/// Open a raw byte source: detect the byte order from its two-byte marker
/// ("II" for little-endian, "MM" for big-endian) and return a stream
/// positioned just past the marker. Any other marker is rejected.
pub fn open_stream(data: Vec<u8>) -> (r: Result<ByteStream, TiffError>)
    ensures
        data@.len() < 2 ==> r == Err::<ByteStream, TiffError>(TiffError::ShortRead),
        data@.len() >= 2 && data@[0] == 0x49 && data@[1] == 0x49 ==> (r matches Ok(s)
            && s.data() == data@ && s.order() == ByteOrder::LittleEndian && s.pos() == 2
            && s.wf()),
        data@.len() >= 2 && data@[0] == 0x4D && data@[1] == 0x4D ==> (r matches Ok(s)
            && s.data() == data@ && s.order() == ByteOrder::BigEndian && s.pos() == 2 && s.wf()),
        data@.len() >= 2 && !(data@[0] == 0x49 && data@[1] == 0x49) && !(data@[0] == 0x4D
            && data@[1] == 0x4D) ==> r == Err::<ByteStream, TiffError>(TiffError::InvalidMarker),
{
    if data.len() < 2 {
        return Err(TiffError::ShortRead);
    }
    let byte_1 = data[0];
    let byte_2 = data[1];

    let intel_order = byte_1 == 0x49 && byte_2 == 0x49;
    let motorola_order = byte_1 == 0x4D && byte_2 == 0x4D;

    if intel_order {
        let mut stream = ByteStream::new(data, ByteOrder::LittleEndian);
        let seeked = stream.seek(2);
        assert(seeked is Ok);
        Ok(stream)
    } else if motorola_order {
        let mut stream = ByteStream::new(data, ByteOrder::BigEndian);
        let seeked = stream.seek(2);
        assert(seeked is Ok);
        Ok(stream)
    } else {
        Err(TiffError::InvalidMarker)
    }
}

/// One fixed-size directory entry: a tag identifier, a type code, an element
/// count, and the offset of the entry's data, as they stand on disk. Nothing
/// is validated at parse time; the typed accessors check the type code.
#[derive(Clone, Copy, Debug, PartialEq, Eq, Structural)]
pub struct IFE {
    pub tag: u16,
    pub entry_type: u16,
    pub count: u32,
    pub offset: u32,
}

/// A rational value as stored on disk: two unsigned 32-bit integers. A zero
/// denominator is kept as it stands; turning the pair into a quotient is the
/// caller's business.
#[derive(Clone, Copy, Debug, PartialEq, Eq, Structural)]
pub struct Rational {
    pub numerator: u32,
    pub denominator: u32,
}

/// The entry whose 12 bytes start at position `p` of `data`.
pub open spec fn entry_at(order: ByteOrder, data: Seq<u8>, p: int) -> IFE
    recommends
        0 <= p,
        p + 12 <= data.len(),
{
    IFE {
        tag: u16_at(order, data, p),
        entry_type: u16_at(order, data, p + 2),
        count: u32_at(order, data, p + 4),
        offset: u32_at(order, data, p + 8),
    }
}

/// What `String::from_utf8` decodes the bytes to, or `None` where they are
/// not valid UTF-8. The result depends on the bytes alone.
pub uninterp spec fn utf8_decoded(bytes: Seq<u8>) -> Option<Seq<char>>;

/// Relies on `String::from_utf8`: it returns the string decoded from the
/// bytes exactly when they are valid UTF-8, and bytes that are all ASCII
/// (below 128) are valid UTF-8 and decode to the characters with the same
/// code points.
#[verifier::external_body]
fn vec_to_utf8(bytes: Vec<u8>) -> (r: Option<String>)
    ensures
        (match r {
            Some(s) => utf8_decoded(bytes@) == Some(s@),
            None => utf8_decoded(bytes@) is None,
        }),
        (match r {
            Some(s) => (forall|i: int| 0 <= i < bytes@.len() ==> bytes@[i] < 128) ==> s@
                == bytes@.map_values(|b: u8| b as char),
            None => exists|i: int| 0 <= i < bytes@.len() && bytes@[i] >= 128,
        }),
{
    match String::from_utf8(bytes) {
        Ok(s) => Some(s),
        Err(_) => None,
    }
}

impl IFE {
    /// Parse one entry at the cursor: tag, type, count, offset, in that field
    /// order, under the stream's current order.
    pub fn parse(stream: &mut ByteStream) -> (r: Result<IFE, TiffError>)
        requires
            old(stream).wf(),
        ensures
            final(stream).wf(),
            final(stream).data() == old(stream).data(),
            final(stream).order() == old(stream).order(),
            old(stream).pos() + 12 <= old(stream).data().len() ==> r == Ok::<IFE, TiffError>(
                entry_at(old(stream).order(), old(stream).data(), old(stream).pos()),
            ) && final(stream).pos() == old(stream).pos() + 12,
            old(stream).pos() + 12 > old(stream).data().len() ==> r == Err::<IFE, TiffError>(
                TiffError::ShortRead,
            ),
    {
        let tag = match stream.read_u16() {
            Ok(v) => v,
            Err(e) => { return Err(e) },
        };
        let entry_type = match stream.read_u16() {
            Ok(v) => v,
            Err(e) => { return Err(e) },
        };
        let count = match stream.read_u32() {
            Ok(v) => v,
            Err(e) => { return Err(e) },
        };
        let offset = match stream.read_u32() {
            Ok(v) => v,
            Err(e) => { return Err(e) },
        };

        Ok(IFE { tag, entry_type, count, offset })
    }

    /// Seek the stream to this entry's data. Fails when the offset lies
    /// beyond the end of the source.
    pub fn seek_to(&self, stream: &mut ByteStream) -> (r: Result<(), TiffError>)
        requires
            old(stream).wf(),
        ensures
            final(stream).wf(),
            final(stream).data() == old(stream).data(),
            final(stream).order() == old(stream).order(),
            self.offset <= old(stream).data().len() ==> r == Ok::<(), TiffError>(())
                && final(stream).pos() == self.offset,
            self.offset > old(stream).data().len() ==> r == Err::<(), TiffError>(
                TiffError::SeekFailure,
            ) && final(stream).pos() == old(stream).pos(),
    {
        stream.seek(self.offset as u64)
    }

    /// Read this entry's contents: `count` raw bytes starting at `offset`.
    /// The cursor is left just past the bytes read, not restored.
    pub fn read_as_bytes(&self, stream: &mut ByteStream) -> (r: Result<Vec<u8>, TiffError>)
        requires
            old(stream).wf(),
        ensures
            final(stream).wf(),
            final(stream).data() == old(stream).data(),
            final(stream).order() == old(stream).order(),
            self.offset + self.count <= old(stream).data().len() ==> (r matches Ok(buf)
                && buf@ == old(stream).data().subrange(
                self.offset as int,
                self.offset + self.count,
            )) && final(stream).pos() == self.offset + self.count,
            self.offset > old(stream).data().len() ==> r == Err::<Vec<u8>, TiffError>(
                TiffError::SeekFailure,
            ),
            self.offset <= old(stream).data().len() && self.offset + self.count > old(
                stream,
            ).data().len() ==> r == Err::<Vec<u8>, TiffError>(TiffError::ShortRead),
    {
        match self.seek_to(stream) {
            Ok(u) => u,
            Err(e) => { return Err(e) },
        };
        stream.read_bytes(self.count as usize)
    }

    /// Decode this entry as a short: one 16-bit unsigned value at `offset`.
    /// Requires type code 3; any other code is a type-mismatch error and no
    /// value is returned.
    pub fn to_short(&self, stream: &mut ByteStream) -> (r: Result<u16, TiffError>)
        requires
            old(stream).wf(),
        ensures
            final(stream).wf(),
            final(stream).data() == old(stream).data(),
            final(stream).order() == old(stream).order(),
            self.entry_type != 3 ==> r == Err::<u16, TiffError>(
                (TiffError::TypeMismatch { expected: 3, actual: self.entry_type }),
            ) && final(stream).pos() == old(stream).pos(),
            self.entry_type == 3 && self.offset + 2 <= old(stream).data().len() ==> r == Ok::<
                u16,
                TiffError,
            >(u16_at(old(stream).order(), old(stream).data(), self.offset as int))
                && final(stream).pos() == self.offset + 2,
            self.entry_type == 3 && self.offset > old(stream).data().len() ==> r == Err::<
                u16,
                TiffError,
            >(TiffError::SeekFailure),
            self.entry_type == 3 && self.offset <= old(stream).data().len() && self.offset + 2
                > old(stream).data().len() ==> r == Err::<u16, TiffError>(TiffError::ShortRead),
    {
        if self.entry_type != 3 {
            return Err(TiffError::TypeMismatch { expected: 3, actual: self.entry_type });
        }
        match self.seek_to(stream) {
            Ok(u) => u,
            Err(e) => { return Err(e) },
        };
        stream.read_u16()
    }

    /// Decode this entry as a long: one 32-bit unsigned value at `offset`.
    /// Requires type code 4; any other code is a type-mismatch error and no
    /// value is returned.
    pub fn to_long(&self, stream: &mut ByteStream) -> (r: Result<u32, TiffError>)
        requires
            old(stream).wf(),
        ensures
            final(stream).wf(),
            final(stream).data() == old(stream).data(),
            final(stream).order() == old(stream).order(),
            self.entry_type != 4 ==> r == Err::<u32, TiffError>(
                (TiffError::TypeMismatch { expected: 4, actual: self.entry_type }),
            ) && final(stream).pos() == old(stream).pos(),
            self.entry_type == 4 && self.offset + 4 <= old(stream).data().len() ==> r == Ok::<
                u32,
                TiffError,
            >(u32_at(old(stream).order(), old(stream).data(), self.offset as int))
                && final(stream).pos() == self.offset + 4,
            self.entry_type == 4 && self.offset > old(stream).data().len() ==> r == Err::<
                u32,
                TiffError,
            >(TiffError::SeekFailure),
            self.entry_type == 4 && self.offset <= old(stream).data().len() && self.offset + 4
                > old(stream).data().len() ==> r == Err::<u32, TiffError>(TiffError::ShortRead),
    {
        if self.entry_type != 4 {
            return Err(TiffError::TypeMismatch { expected: 4, actual: self.entry_type });
        }
        match self.seek_to(stream) {
            Ok(u) => u,
            Err(e) => { return Err(e) },
        };
        stream.read_u32()
    }

    /// Decode this entry as a rational: numerator then denominator, two
    /// consecutive 32-bit unsigned values at `offset`. Requires type code 5.
    /// A zero denominator is returned as read, not treated as an error.
    pub fn to_rational(&self, stream: &mut ByteStream) -> (r: Result<Rational, TiffError>)
        requires
            old(stream).wf(),
        ensures
            final(stream).wf(),
            final(stream).data() == old(stream).data(),
            final(stream).order() == old(stream).order(),
            self.entry_type != 5 ==> r == Err::<Rational, TiffError>(
                (TiffError::TypeMismatch { expected: 5, actual: self.entry_type }),
            ) && final(stream).pos() == old(stream).pos(),
            self.entry_type == 5 && self.offset + 8 <= old(stream).data().len() ==> r == Ok::<
                Rational,
                TiffError,
            >(
                (Rational {
                    numerator: u32_at(old(stream).order(), old(stream).data(), self.offset as int),
                    denominator: u32_at(
                        old(stream).order(),
                        old(stream).data(),
                        self.offset + 4,
                    ),
                }),
            ) && final(stream).pos() == self.offset + 8,
            self.entry_type == 5 && self.offset > old(stream).data().len() ==> r == Err::<
                Rational,
                TiffError,
            >(TiffError::SeekFailure),
            self.entry_type == 5 && self.offset <= old(stream).data().len() && self.offset + 8
                > old(stream).data().len() ==> r == Err::<Rational, TiffError>(
                TiffError::ShortRead,
            ),
    {
        if self.entry_type != 5 {
            return Err(TiffError::TypeMismatch { expected: 5, actual: self.entry_type });
        }
        match self.seek_to(stream) {
            Ok(u) => u,
            Err(e) => { return Err(e) },
        };

        let numerator = match stream.read_u32() {
            Ok(v) => v,
            Err(e) => { return Err(e) },
        };
        let denominator = match stream.read_u32() {
            Ok(v) => v,
            Err(e) => { return Err(e) },
        };

        Ok(Rational { numerator, denominator })
    }

    /// Decode this entry as text: `count` raw bytes at `offset` reinterpreted
    /// as UTF-8. Requires type code 2. No null-stripping is performed: a
    /// trailing terminator, if present, remains in the returned string.
    pub fn to_ascii(&self, stream: &mut ByteStream) -> (r: Result<String, TiffError>)
        requires
            old(stream).wf(),
        ensures
            final(stream).wf(),
            final(stream).data() == old(stream).data(),
            final(stream).order() == old(stream).order(),
            self.entry_type != 2 ==> r == Err::<String, TiffError>(
                (TiffError::TypeMismatch { expected: 2, actual: self.entry_type }),
            ) && final(stream).pos() == old(stream).pos(),
            self.entry_type == 2 && self.offset + self.count <= old(stream).data().len() ==> (
            match utf8_decoded(
                old(stream).data().subrange(self.offset as int, self.offset + self.count),
            ) {
                Some(cs) => r matches Ok(s) && s@ == cs,
                None => r == Err::<String, TiffError>(TiffError::Utf8Decode),
            }) && final(stream).pos() == self.offset + self.count,
            self.entry_type == 2 && self.offset > old(stream).data().len() ==> r == Err::<
                String,
                TiffError,
            >(TiffError::SeekFailure),
            self.entry_type == 2 && self.offset <= old(stream).data().len() && self.offset
                + self.count > old(stream).data().len() ==> r == Err::<String, TiffError>(
                TiffError::ShortRead,
            ),
    {
        if self.entry_type != 2 {
            return Err(TiffError::TypeMismatch { expected: 2, actual: self.entry_type });
        }

        let buffer = match self.read_as_bytes(stream) {
            Ok(b) => b,
            Err(e) => { return Err(e) },
        };

        match vec_to_utf8(buffer) {
            Some(s) => Ok(s),
            None => Err(TiffError::Utf8Decode),
        }
    }
}

impl TiffHeader {
    /// Parse the header at the cursor: magic (16-bit) then the first
    /// directory offset (32-bit), both under the stream's current order. A
    /// magic other than 42 is a terminal format error; no partial header is
    /// returned.
    pub fn parse(stream: &mut ByteStream) -> (r: Result<TiffHeader, TiffError>)
        requires
            old(stream).wf(),
        ensures
            final(stream).wf(),
            final(stream).data() == old(stream).data(),
            final(stream).order() == old(stream).order(),
            old(stream).pos() + 6 > old(stream).data().len() ==> r == Err::<
                TiffHeader,
                TiffError,
            >(TiffError::ShortRead),
            old(stream).pos() + 6 <= old(stream).data().len() && u16_at(
                old(stream).order(),
                old(stream).data(),
                old(stream).pos(),
            ) != 42 ==> r == Err::<TiffHeader, TiffError>(TiffError::BadMagic),
            old(stream).pos() + 6 <= old(stream).data().len() && u16_at(
                old(stream).order(),
                old(stream).data(),
                old(stream).pos(),
            ) == 42 ==> r == Ok::<TiffHeader, TiffError>(
                (TiffHeader {
                    magic: u16_at(old(stream).order(), old(stream).data(), old(stream).pos()),
                    ifd_start: u32_at(
                        old(stream).order(),
                        old(stream).data(),
                        old(stream).pos() + 2,
                    ),
                }),
            ) && final(stream).pos() == old(stream).pos() + 6,
    {
        let magic = match stream.read_u16() {
            Ok(v) => v,
            Err(e) => { return Err(e) },
        };
        let ifd_start = match stream.read_u32() {
            Ok(v) => v,
            Err(e) => { return Err(e) },
        };

        let hdr = TiffHeader { magic, ifd_start };

        if hdr.magic != 42 {
            return Err(TiffError::BadMagic);
        }

        Ok(hdr)
    }
}

/// Law: encoding a rational's numerator then denominator at `p` and decoding
/// the two 32-bit values back reproduces the pair exactly, for either order.
pub proof fn lemma_rational_round_trip(
    order: ByteOrder,
    data: Seq<u8>,
    p: int,
    num: u32,
    den: u32,
)
    requires
        0 <= p,
        p + 8 <= data.len(),
        data.subrange(p, p + 4) =~= u32_bytes(order, num),
        data.subrange(p + 4, p + 8) =~= u32_bytes(order, den),
    ensures
        u32_at(order, data, p) == num,
        u32_at(order, data, p + 4) == den,
{
    lemma_u32_round_trip(order, data, p, num);
    lemma_u32_round_trip(order, data, p + 4, den);
}

/// An image file directory: the ordered sequence of its entries, insertion
/// order equal to on-disk order within the directory.
#[derive(Debug, PartialEq, Eq)]
pub struct IFD {
    pub entries: Vec<IFE>,
}

impl View for IFD {
    type V = Seq<IFE>;

    open spec fn view(&self) -> Seq<IFE> {
        self.entries@
    }
}

/// The directories of a list, each as its sequence of entries.
pub open spec fn dirs_view(ds: Seq<IFD>) -> Seq<Seq<IFE>> {
    ds.map_values(|d: IFD| d@)
}

/// The entry count of the directory at `p`.
pub open spec fn dir_count(order: ByteOrder, data: Seq<u8>, p: int) -> u16 {
    u16_at(order, data, p)
}

/// One past the last byte of the directory at `p`: its count field, its
/// fixed-size entries, and its next-directory offset.
pub open spec fn dir_end(order: ByteOrder, data: Seq<u8>, p: int) -> int {
    p + 6 + 12 * dir_count(order, data, p)
}

/// Whether the directory at `p` lies fully inside the source.
pub open spec fn dir_fits(order: ByteOrder, data: Seq<u8>, p: int) -> bool {
    0 <= p && dir_end(order, data, p) <= data.len()
}

/// The entries of the directory at `p`, in on-disk order.
pub open spec fn dir_entries(order: ByteOrder, data: Seq<u8>, p: int) -> Seq<IFE> {
    Seq::new(
        dir_count(order, data, p) as nat,
        |i: int| entry_at(order, data, p + 2 + 12 * i),
    )
}

/// The next-directory offset recorded by the directory at `p` (0 terminates
/// the chain).
pub open spec fn dir_next(order: ByteOrder, data: Seq<u8>, p: int) -> u32 {
    u32_at(order, data, p + 2 + 12 * dir_count(order, data, p))
}

/// The outcome of walking the directory chain from position `p`, with `seen`
/// the positions of the directories already walked. On success the list holds
/// the directory nearest the end of the chain first and the one at `p` last.
/// A next-offset that points at a directory already walked is a cycle and
/// fails; since walked positions are distinct and lie inside the source, a
/// walk never visits more than `data.len() + 1` of them, which bounds the
/// recursion.
pub open spec fn chain_from(order: ByteOrder, data: Seq<u8>, p: int, seen: Seq<int>) -> Result<
    Seq<Seq<IFE>>,
    TiffError,
>
    decreases data.len() + 1 - seen.len(),
{
    if seen.len() > data.len() {
        Err(TiffError::CyclicChain)
    } else if seen.contains(p) {
        Err(TiffError::CyclicChain)
    } else if !dir_fits(order, data, p) {
        Err(TiffError::ShortRead)
    } else if dir_next(order, data, p) == 0 {
        Ok(seq![dir_entries(order, data, p)])
    } else if dir_next(order, data, p) > data.len() {
        Err(TiffError::SeekFailure)
    } else {
        match chain_from(order, data, dir_next(order, data, p) as int, seen.push(p)) {
            Ok(rest) => Ok(rest.push(dir_entries(order, data, p))),
            Err(e) => Err(e),
        }
    }
}

/// Append the directories already walked (walk order reversed) behind the
/// outcome of the rest of the chain.
pub open spec fn chain_step(
    rest: Result<Seq<Seq<IFE>>, TiffError>,
    done: Seq<Seq<IFE>>,
) -> Result<Seq<Seq<IFE>>, TiffError> {
    match rest {
        Ok(tail) => Ok(tail + done.reverse()),
        Err(e) => Err(e),
    }
}

/// The visited positions as mathematical integers.
pub open spec fn seen_of(v: Seq<usize>) -> Seq<int> {
    v.map_values(|x: usize| x as int)
}

/// Whether position `p` is among the visited positions.
fn seen_contains(visited: &Vec<usize>, p: usize) -> (b: bool)
    ensures
        b == seen_of(visited@).contains(p as int),
{
    let mut i: usize = 0;
    while i < visited.len()
        invariant
            i <= visited@.len(),
            forall|j: int| 0 <= j < i ==> visited@[j] != p,
        decreases visited@.len() - i,
    {
        if visited[i] == p {
            assert(seen_of(visited@)[i as int] == p as int);
            return true;
        }
        i = i + 1;
    }
    assert forall|j: int| 0 <= j < seen_of(visited@).len() implies seen_of(visited@)[j] != p
        as int by {
        assert(visited@[j] != p);
    }
    false
}

impl IFD {
    /// Walk the chain of directories from the cursor: read each directory's
    /// entry count, its entries, and its next-directory offset; follow
    /// non-zero offsets until one is 0. The returned order is the chain
    /// reversed: the directory nearest the end of the chain comes first and
    /// the one the walk started at last. A next-offset pointing at a
    /// directory already walked fails as a cyclic chain; any read or seek
    /// failure aborts the whole walk with no partial list.
    #[verifier::loop_isolation(false)]
    pub fn parse(stream: &mut ByteStream) -> (r: Result<Vec<IFD>, TiffError>)
        requires
            old(stream).wf(),
        ensures
            final(stream).wf(),
            final(stream).data() == old(stream).data(),
            final(stream).order() == old(stream).order(),
            (match chain_from(
                old(stream).order(),
                old(stream).data(),
                old(stream).pos(),
                Seq::empty(),
            ) {
                Ok(ds) => r matches Ok(v) && dirs_view(v@) == ds,
                Err(e) => r == Err::<Vec<IFD>, TiffError>(e),
            }),
    {
        let ghost order0 = old(stream).order();
        let ghost data0 = old(stream).data();
        let ghost start = old(stream).pos();

        let mut visited: Vec<usize> = Vec::new();
        let mut collected: Vec<IFD> = Vec::new();

        proof {
            assert(seen_of(visited@) =~= Seq::<int>::empty());
            assert(dirs_view(collected@) =~= Seq::<Seq<IFE>>::empty());
            let c0 = chain_from(order0, data0, start, Seq::<int>::empty());
            if c0 is Ok {
                assert(c0->Ok_0 + Seq::<Seq<IFE>>::empty().reverse() =~= c0->Ok_0);
            }
        }

        loop
            invariant
                stream.wf(),
                stream.data() == data0,
                stream.order() == order0,
                visited@.len() <= data0.len() + 1,
                chain_from(order0, data0, start, Seq::empty()) == chain_step(
                    chain_from(order0, data0, stream.pos(), seen_of(visited@)),
                    dirs_view(collected@),
                ),
            decreases data0.len() + 1 - visited@.len(),
        {
            if visited.len() > stream.len() {
                return Err(TiffError::CyclicChain);
            }
            let dir_pos = stream.position();
            if seen_contains(&visited, dir_pos) {
                return Err(TiffError::CyclicChain);
            }

            let ghost seen0 = seen_of(visited@);
            let ghost done0 = dirs_view(collected@);

            let count = match stream.read_u16() {
                Ok(c) => c,
                Err(e) => { return Err(e) },
            };

            let mut entries: Vec<IFE> = Vec::new();
            let mut i: u16 = 0;
            while i < count
                invariant
                    stream.wf(),
                    stream.data() == data0,
                    stream.order() == order0,
                    i <= count,
                    stream.pos() == dir_pos + 2 + 12 * (i as int),
                    entries@ =~= Seq::new(
                        i as nat,
                        |j: int| entry_at(order0, data0, dir_pos + 2 + 12 * j),
                    ),
                decreases count - i,
            {
                let entry = match IFE::parse(stream) {
                    Ok(v) => v,
                    Err(e) => {
                        proof {
                            assert(dir_end(order0, data0, dir_pos as int) > data0.len());
                        }
                        return Err(e)
                    },
                };
                entries.push(entry);
                i = i + 1;
                proof {
                    assert(entries@ =~= Seq::new(
                        i as nat,
                        |j: int| entry_at(order0, data0, dir_pos + 2 + 12 * j),
                    ));
                }
            }

            let next = match stream.read_u32() {
                Ok(v) => v,
                Err(e) => {
                    proof {
                        assert(dir_end(order0, data0, dir_pos as int) > data0.len());
                    }
                    return Err(e)
                },
            };

            proof {
                assert(dir_fits(order0, data0, dir_pos as int));
                assert(next == dir_next(order0, data0, dir_pos as int));
                assert(entries@ =~= dir_entries(order0, data0, dir_pos as int));
            }

            let dir = IFD { entries };
            let ghost dir_view = dir_entries(order0, data0, dir_pos as int);
            collected.push(dir);
            proof {
                assert(dirs_view(collected@) =~= done0.push(dir_view));
            }

            if next == 0 {
                let ghost full = dirs_view(collected@);
                let mut result: Vec<IFD> = Vec::new();
                let ghost chain = collected@;
                while collected.len() > 0
                    invariant
                        result@.len() + collected@.len() == chain.len(),
                        collected@ =~= chain.take(collected@.len() as int),
                        forall|j: int|
                            0 <= j < result@.len() ==> result@[j] == chain[chain.len() - 1 - j],
                    decreases collected@.len(),
                {
                    let ghost k = collected@.len() as int;
                    match collected.pop() {
                        Some(d) => {
                            proof {
                                assert(d == chain[k - 1]);
                                assert(collected@ =~= chain.take(k - 1));
                            }
                            result.push(d);
                        },
                        None => {},
                    }
                }
                proof {
                    assert(result@ =~= chain.reverse());
                    let target = seq![dir_view] + done0.reverse();
                    assert forall|j: int| 0 <= j < target.len() implies dirs_view(result@)[j]
                        == target[j] by {
                        assert(result@[j] == chain[chain.len() - 1 - j]);
                        if j == 0 {
                            assert(chain[chain.len() - 1]@ == dir_view);
                        } else {
                            assert(chain[chain.len() - 1 - j]@ == done0[done0.len() - j]);
                            assert(done0.reverse()[j - 1] == done0[done0.len() - j]);
                        }
                    }
                    assert(dirs_view(result@) =~= target);
                }
                return Ok(result);
            }

            match stream.seek(next as u64) {
                Ok(u) => u,
                Err(e) => { return Err(e) },
            };
            visited.push(dir_pos);
            proof {
                assert(seen_of(visited@) =~= seen0.push(dir_pos as int));
                let rest = chain_from(order0, data0, next as int, seen0.push(dir_pos as int));
                if rest is Ok {
                    let tail = rest->Ok_0;
                    assert(tail.push(dir_view) + done0.reverse() =~= tail + (done0.push(
                        dir_view,
                    )).reverse()) by {
                        assert((done0.push(dir_view)).reverse() =~= seq![dir_view]
                            + done0.reverse());
                    }
                }
            }
        }
    }
}

} // verus!
