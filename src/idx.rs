use vstd::prelude::*;

use crate::error::Error;

verus! {

/// Magic number of a one-dimensional (label) container.
pub const LABEL_MAGIC: u32 = 2049;

/// Magic number of a three-dimensional (image) container.
pub const IMAGE_MAGIC: u32 = 2051;

/// The big-endian 32-bit value held by the four bytes of `s` from index `i` on.
pub open spec fn be_u32_at(s: Seq<u8>, i: int) -> u32 {
    (s[i] as int * 0x1000000 + s[i + 1] as int * 0x10000 + s[i + 2] as int * 0x100
        + s[i + 3] as int) as u32
}

/// Reads the big-endian 32-bit value that starts at index `i`.
fn read_be_u32(s: &Vec<u8>, i: usize) -> (r: u32)
    requires
        i + 4 <= s@.len(),
    ensures
        r == be_u32_at(s@, i as int),
{
    let n = s.len();
    assert(i + 3 < n);
    let b0 = s[i] as u32;
    let b1 = s[i + 1] as u32;
    let b2 = s[i + 2] as u32;
    let b3 = s[i + 3] as u32;
    b0 * 0x1000000 + b1 * 0x10000 + b2 * 0x100 + b3
}


/// The bytes of `v` from index `lo` up to, not including, index `hi`.
fn copy_range(v: &Vec<u8>, lo: usize, hi: usize) -> (r: Vec<u8>)
    requires
        lo <= hi <= v@.len(),
    ensures
        r@ == v@.subrange(lo as int, hi as int),
{
    let mut r: Vec<u8> = Vec::new();
    let mut k: usize = lo;
    while k < hi
        invariant
            lo <= k <= hi,
            hi <= v@.len(),
            r@ == v@.subrange(lo as int, k as int),
        decreases hi - k,
    {
        r.push(v[k]);
        k += 1;
        assert(r@ =~= v@.subrange(lo as int, k as int));
    }
    r
}

/// Three 32-bit values multiply to a number that fits in 128 bits.
proof fn lemma_product_bound(a: int, b: int, c: int)
    requires
        0 <= a <= u32::MAX,
        0 <= b <= u32::MAX,
        0 <= c <= u32::MAX,
    ensures
        0 <= a * b <= u64::MAX,
        0 <= a * b * c <= u128::MAX,
{
    assert(0 <= a * b <= u32::MAX as int * u32::MAX as int) by (nonlinear_arith)
        requires
            0 <= a <= u32::MAX,
            0 <= b <= u32::MAX,
    ;
    assert(0 <= a * b * c <= u64::MAX as int * u32::MAX as int) by (nonlinear_arith)
        requires
            0 <= a * b <= u64::MAX,
            0 <= c <= u32::MAX,
    ;
}

/// What a decompressed container holds: its declared dimensions (one for a
/// label container, count, height and width for an image container) and the
/// payload bytes that follow the header, or why it is rejected.
pub open spec fn parse_spec(c: Seq<u8>) -> Result<(Seq<u32>, Seq<u8>), Error> {
    if c.len() < 4 {
        Err(Error::TruncatedData)
    } else if be_u32_at(c, 0) == LABEL_MAGIC {
        if c.len() < 8 {
            Err(Error::TruncatedData)
        } else if c.len() - 8 != be_u32_at(c, 4) as int {
            Err(Error::TruncatedData)
        } else {
            Ok((seq![be_u32_at(c, 4)], c.subrange(8, c.len() as int)))
        }
    } else if be_u32_at(c, 0) == IMAGE_MAGIC {
        if c.len() < 16 {
            Err(Error::TruncatedData)
        } else if c.len() - 16 != be_u32_at(c, 4) as int * be_u32_at(c, 8) as int
            * be_u32_at(c, 12) as int {
            Err(Error::TruncatedData)
        } else {
            Ok(
                (
                    seq![be_u32_at(c, 4), be_u32_at(c, 8), be_u32_at(c, 12)],
                    c.subrange(16, c.len() as int),
                ),
            )
        }
    } else {
        Err(Error::Format)
    }
}

/// A decoded container: its declared dimensions and its raw payload.
pub struct MnistData {
    /// `[count]` for labels, `[count, height, width]` for images.
    pub sizes: Vec<u32>,
    /// One byte per label, or the pixels of all images, row-major, image after image.
    pub data: Vec<u8>,
}

impl MnistData {
    pub open spec fn view(&self) -> (Seq<u32>, Seq<u8>) {
        (self.sizes@, self.data@)
    }

    /// Parses a decompressed container: header, then a payload whose length
    /// must be exactly what the header declares.
    pub fn parse(contents: &Vec<u8>) -> (r: Result<MnistData, Error>)
        ensures
            match r {
                Ok(d) => parse_spec(contents@) == Ok::<(Seq<u32>, Seq<u8>), Error>(d@),
                Err(e) => parse_spec(contents@) == Err::<(Seq<u32>, Seq<u8>), Error>(e),
            },
    {
        let len = contents.len();
        if len < 4 {
            return Err(Error::TruncatedData);
        }
        let magic = read_be_u32(contents, 0);
        let mut sizes: Vec<u32> = Vec::new();
        let mut start: usize = 0;
        if magic == LABEL_MAGIC {
            if len < 8 {
                return Err(Error::TruncatedData);
            }
            let count = read_be_u32(contents, 4);
            if (len - 8) as u64 != count as u64 {
                return Err(Error::TruncatedData);
            }
            sizes.push(count);
            start = 8;
        } else if magic == IMAGE_MAGIC {
            if len < 16 {
                return Err(Error::TruncatedData);
            }
            let count = read_be_u32(contents, 4);
            let height = read_be_u32(contents, 8);
            let width = read_be_u32(contents, 12);
            proof {
                lemma_product_bound(count as int, height as int, width as int);
            }
            let area = count as u128 * height as u128;
            let expected = area * width as u128;
            if (len - 16) as u128 != expected {
                return Err(Error::TruncatedData);
            }
            sizes.push(count);
            sizes.push(height);
            sizes.push(width);
            start = 16;
        } else {
            return Err(Error::Format);
        }
        let data = copy_range(contents, start, len);
        proof {
            assert(sizes@ =~= parse_spec(contents@)->Ok_0.0);
        }
        Ok(MnistData { sizes, data })
    }
}


/// The bytes that the gzip member held by `b` decompresses to, or `None` where
/// `b` is not valid gzip data.
pub uninterp spec fn gunzip(b: Seq<u8>) -> Option<Seq<u8>>;

/// Relies on flate2's `read::GzDecoder` read to its end: the decompressed bytes
/// of one gzip member, or an error where the data is malformed; either way
/// fixed by the input bytes alone.
#[verifier::external_body]
fn decompress(compressed: &Vec<u8>) -> (r: Option<Vec<u8>>)
    ensures
        r is None <==> gunzip(compressed@) is None,
        r matches Some(c) ==> gunzip(compressed@) == Some(c@),
{
    let mut gz = flate2::read::GzDecoder::new(compressed.as_slice());
    let mut contents: Vec<u8> = Vec::new();
    match std::io::Read::read_to_end(&mut gz, &mut contents) {
        Ok(_) => Some(contents),
        Err(_) => None,
    }
}

/// What a gzip-compressed container decodes to, or why it is rejected.
pub open spec fn decode_spec(b: Seq<u8>) -> Result<(Seq<u32>, Seq<u8>), Error> {
    match gunzip(b) {
        None => Err(Error::Decompression),
        Some(c) => parse_spec(c),
    }
}

impl MnistData {
    /// Decompresses a gzip stream and parses the container it holds.
    pub fn new(compressed: &Vec<u8>) -> (r: Result<MnistData, Error>)
        ensures
            match r {
                Ok(d) => decode_spec(compressed@) == Ok::<(Seq<u32>, Seq<u8>), Error>(d@),
                Err(e) => decode_spec(compressed@) == Err::<(Seq<u32>, Seq<u8>), Error>(e),
            },
    {
        match decompress(compressed) {
            None => Err(Error::Decompression),
            Some(contents) => MnistData::parse(&contents),
        }
    }
}

/// One labelled image.
pub struct MnistImage {
    /// Pixel bytes, row-major; the normalized intensity of a pixel is its byte
    /// divided by 255, which lies in [0, 1].
    pub image: Vec<u8>,
    /// The class label paired with the image.
    pub classification: u8,
}

impl MnistImage {
    pub open spec fn view(&self) -> (Seq<u8>, u8) {
        (self.image@, self.classification)
    }
}

/// The pairs (pixels, label) that a sequence of records stands for.
pub open spec fn records_view(v: Seq<MnistImage>) -> Seq<(Seq<u8>, u8)> {
    v.map_values(|m: MnistImage| m@)
}

/// The records made of a label container and an image container: the `i`-th
/// image, `height * width` bytes, goes with the `i`-th label. Rejected where
/// the two have the wrong layouts, declare different counts, or hold payloads
/// of another length than declared.
pub open spec fn pair_spec(labels: (Seq<u32>, Seq<u8>), images: (Seq<u32>, Seq<u8>)) -> Result<
    Seq<(Seq<u8>, u8)>,
    Error,
> {
    let count = labels.0[0] as int;
    let size = images.0[1] as int * images.0[2] as int;
    if labels.0.len() != 1 || images.0.len() != 3 {
        Err(Error::Format)
    } else if labels.0[0] != images.0[0] {
        Err(Error::LengthMismatch)
    } else if labels.1.len() != count || images.1.len() != count * size {
        Err(Error::TruncatedData)
    } else {
        Ok(Seq::new(count as nat, |i: int| (images.1.subrange(i * size, i * size + size), labels.1[i])))
    }
}

/// Where `i < count`, the `i`-th chunk of `size` items ends within `count * size`.
proof fn lemma_chunk_in_bounds(i: int, count: int, size: int)
    requires
        0 <= i < count,
        0 <= size,
    ensures
        0 <= i * size,
        i * size + size <= count * size,
{
    assert(0 <= i * size) by (nonlinear_arith)
        requires
            0 <= i,
            0 <= size,
    ;
    assert(i * size + size <= count * size) by (nonlinear_arith)
        requires
            i < count,
            0 <= size,
    ;
}

/// Pairs decoded labels and images by position.
pub fn records_from(labels: &MnistData, images: &MnistData) -> (r: Result<Vec<MnistImage>, Error>)
    ensures
        match r {
            Ok(v) => pair_spec(labels@, images@) == Ok::<Seq<(Seq<u8>, u8)>, Error>(
                records_view(v@),
            ),
            Err(e) => pair_spec(labels@, images@) == Err::<Seq<(Seq<u8>, u8)>, Error>(e),
        },
{
    if labels.sizes.len() != 1 || images.sizes.len() != 3 {
        return Err(Error::Format);
    }
    let count = labels.sizes[0];
    let height = images.sizes[1];
    let width = images.sizes[2];
    if count != images.sizes[0] {
        return Err(Error::LengthMismatch);
    }
    proof {
        lemma_product_bound(count as int, height as int, width as int);
    }
    let declared = count as u128 * height as u128 * width as u128;
    proof {
        assert(count as int * (height as int * width as int) == count as int * height as int
            * width as int) by (nonlinear_arith);
    }
    if labels.data.len() as u128 != count as u128 || images.data.len() as u128 != declared {
        return Err(Error::TruncatedData);
    }
    let n = labels.data.len();
    let total = images.data.len();
    let ghost sz = height as int * width as int;
    let mut out: Vec<MnistImage> = Vec::new();
    if n == 0 {
        assert(records_view(out@) =~= pair_spec(labels@, images@)->Ok_0);
        return Ok(out);
    }
    proof {
        assert(sz <= n * sz) by (nonlinear_arith)
            requires
                n >= 1,
                sz >= 0,
        ;
    }
    let size = height as usize * width as usize;
    let mut i: usize = 0;
    let mut offset: usize = 0;
    while i < n
        invariant
            n == labels.data@.len(),
            n == count as int,
            size as int == sz,
            sz >= 0,
            images.data@.len() == n * sz,
            total == images.data@.len(),
            i <= n,
            offset as int == i * sz,
            out@.len() == i,
            forall|j: int|
                0 <= j < i ==> (#[trigger] out@[j])@ == (
                    images.data@.subrange(j * sz, j * sz + sz),
                    labels.data@[j],
                ),
        decreases n - i,
    {
        proof {
            lemma_chunk_in_bounds(i as int, n as int, sz);
        }
        let image = copy_range(&images.data, offset, offset + size);
        out.push(MnistImage { image, classification: labels.data[i] });
        proof {
            assert((i + 1) * sz == i * sz + sz) by (nonlinear_arith);
        }
        i += 1;
        offset += size;
    }
    assert(records_view(out@) =~= pair_spec(labels@, images@)->Ok_0);
    Ok(out)
}

/// What decoding a compressed label stream and a compressed image stream
/// yields: the first error met, labels first, or the paired records.
pub open spec fn load_spec(label_stream: Seq<u8>, image_stream: Seq<u8>) -> Result<
    Seq<(Seq<u8>, u8)>,
    Error,
> {
    match decode_spec(label_stream) {
        Err(e) => Err(e),
        Ok(l) => match decode_spec(image_stream) {
            Err(e) => Err(e),
            Ok(im) => pair_spec(l, im),
        },
    }
}

/// Decodes a gzip-compressed label stream and a gzip-compressed image stream
/// into labelled images.
pub fn load_data(label_stream: &Vec<u8>, image_stream: &Vec<u8>) -> (r: Result<
    Vec<MnistImage>,
    Error,
>)
    ensures
        match r {
            Ok(v) => load_spec(label_stream@, image_stream@) == Ok::<
                Seq<(Seq<u8>, u8)>,
                Error,
            >(records_view(v@)),
            Err(e) => load_spec(label_stream@, image_stream@) == Err::<
                Seq<(Seq<u8>, u8)>,
                Error,
            >(e),
        },
{
    let labels = match MnistData::new(label_stream) {
        Ok(d) => d,
        Err(e) => return Err(e),
    };
    let images = match MnistData::new(image_stream) {
        Ok(d) => d,
        Err(e) => return Err(e),
    };
    records_from(&labels, &images)
}

} // verus!
