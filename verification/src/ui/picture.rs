//! Which bytes the picture decoders can be given.
//!
//! On a few pictures that are out of the ordinary the decoders index past a buffer
//! or multiply past their integers instead of giving an error. Their headers tell:
//! here they are walked as the decoders walk them, up to the first image data, and
//! a picture with such a header is told apart.

use vstd::prelude::*;

verus! {

/// The larger of two numbers.
pub open spec fn larger(a: int, b: int) -> int {
    if a < b {
        b
    } else {
        a
    }
}

/// The two bytes at a place, as one number, the high byte first.
pub open spec fn word(b: Seq<u8>, p: int) -> nat {
    256 * b[p] as nat + b[p + 1] as nat
}

/// The four bytes at a place, as one number, the high byte first.
pub open spec fn long(b: Seq<u8>, p: int) -> nat {
    65536 * word(b, p) + word(b, p + 2)
}

/// The sum of the bytes from one place up to another.
pub open spec fn sum(b: Seq<u8>, from: int, to: int) -> nat
    decreases to - from,
{
    if from >= to {
        0
    } else {
        b[from] as nat + sum(b, from + 1, to)
    }
}

/// The greatest of the bytes from one place up to another, or 0 where there is none.
pub open spec fn greatest(b: Seq<u8>, from: int, to: int) -> int
    decreases to - from,
{
    if from >= to {
        0
    } else {
        larger(b[from] as int, greatest(b, from + 1, to))
    }
}

/// What the header of a JPEG tells, up to some segment of it.
pub struct JpegHead {
    /// Where the frame header stands.
    pub frame: Option<int>,
    /// Whether an Adobe segment stands behind the frame header.
    pub late_adobe: bool,
    /// The greatest symbol of its Huffman tables for DC values: how many bits the
    /// difference between two of them can have.
    pub category: int,
    /// The greatest divisor that its quantisation tables have for DC values.
    pub divisor: int,
}

/// The greatest symbol of the DC tables among the Huffman tables from one place up
/// to another, where they fill the room.
pub open spec fn top_category(b: Seq<u8>, p: int, end: int) -> Option<int>
    decreases end - p,
{
    if p == end {
        Some(0)
    } else if p + 17 > end {
        None
    } else {
        let symbols = p + 17;
        let next = symbols + sum(b, p + 1, symbols);
        if next > end {
            None
        } else {
            let here = if b[p] < 16 {
                greatest(b, symbols, next)
            } else {
                0
            };
            match top_category(b, next, end) {
                Some(category) => Some(larger(here, category)),
                None => None,
            }
        }
    }
}

/// The greatest DC divisor of the quantisation tables from one place up to another,
/// where they fill the room.
pub open spec fn top_divisor(b: Seq<u8>, p: int, end: int) -> Option<int>
    decreases end - p,
{
    if p == end {
        Some(0)
    } else if p + 65 > end || b[p] >= 32 || (b[p] >= 16 && p + 129 > end) {
        None
    } else {
        let (here, next) = if b[p] < 16 {
            (b[p + 1] as int, p + 65)
        } else {
            (word(b, p + 1) as int, p + 129)
        };
        match top_divisor(b, next, end) {
            Some(divisor) => Some(larger(here, divisor)),
            None => None,
        }
    }
}

/// What the header tells with one segment more, or nothing where the segment cannot
/// stand in a header. Segments that tell nothing of the picture are passed over.
pub open spec fn with_segment(b: Seq<u8>, p: int, head: JpegHead) -> Option<JpegHead> {
    let marker = b[p + 1];
    let length = word(b, p + 2);
    if 0xc0 <= marker <= 0xc2 {
        if head.frame is Some || length < 8 {
            None
        } else {
            Some(
                JpegHead {
                    frame: Some(p),
                    late_adobe: head.late_adobe,
                    category: head.category,
                    divisor: head.divisor,
                },
            )
        }
    } else if marker == 0xc4 {
        match top_category(b, p + 4, p + 2 + length) {
            Some(category) => Some(
                JpegHead {
                    frame: head.frame,
                    late_adobe: head.late_adobe,
                    category: larger(head.category, category),
                    divisor: head.divisor,
                },
            ),
            None => None,
        }
    } else if marker == 0xdb {
        match top_divisor(b, p + 4, p + 2 + length) {
            Some(divisor) => Some(
                JpegHead {
                    frame: head.frame,
                    late_adobe: head.late_adobe,
                    category: head.category,
                    divisor: larger(head.divisor, divisor),
                },
            ),
            None => None,
        }
    } else if marker == 0xee {
        Some(
            JpegHead {
                frame: head.frame,
                late_adobe: head.late_adobe || head.frame is Some,
                category: head.category,
                divisor: head.divisor,
            },
        )
    } else if marker == 0 || marker == 0xcc || 0xd0 <= marker <= 0xd9 || marker == 0xdc {
        None
    } else if (marker == 0xdd && length != 4) || (marker == 0xe0 && length == 6) {
        None
    } else {
        Some(head)
    }
}

/// What the header of a JPEG tells, read on from some place, and where its first
/// scan header stands: each segment is a marker, which fill bytes may stand before,
/// and a length that takes in itself and what follows.
pub open spec fn jpeg_head(b: Seq<u8>, p: int, head: JpegHead) -> Option<(JpegHead, int)>
    decreases b.len() - p,
{
    if p < 0 || p + 4 > b.len() || b[p] != 0xff {
        None
    } else if b[p + 1] == 0xff {
        jpeg_head(b, p + 1, head)
    } else {
        let next = p + 2 + word(b, p + 2);
        if word(b, p + 2) < 2 || next > b.len() {
            None
        } else if b[p + 1] == 0xda {
            Some((head, p))
        } else {
            match with_segment(b, p, head) {
                Some(more) => jpeg_head(b, next, more),
                None => None,
            }
        }
    }
}

/// Whether image data goes on, from some place, to the end of the picture or of the
/// bytes with no marker in it but restarts.
pub open spec fn one_scan(b: Seq<u8>, p: int) -> bool
    decreases b.len() - p,
{
    if p < 0 || p + 2 > b.len() {
        true
    } else if b[p] != 0xff || b[p + 1] == 0xff {
        one_scan(b, p + 1)
    } else if b[p + 1] == 0 || 0xd0 <= b[p + 1] <= 0xd7 {
        one_scan(b, p + 2)
    } else {
        b[p + 1] == 0xd9
    }
}

/// How often a component is sampled across, in a unit of the frame at a place.
pub open spec fn across(b: Seq<u8>, frame: int, component: int) -> int {
    b[frame + 11 + 3 * component] as int / 16
}

/// How often a component is sampled down, in a unit of the frame at a place.
pub open spec fn down(b: Seq<u8>, frame: int, component: int) -> int {
    b[frame + 11 + 3 * component] as int % 16
}

/// No component is sampled more often than the first.
pub open spec fn first_is_finest(b: Seq<u8>, frame: int, components: int) -> bool {
    forall|i: int|
        0 <= i < components ==> 1 <= #[trigger] across(b, frame, i) <= across(b, frame, 0) && 1
            <= down(b, frame, i) <= down(b, frame, 0)
}

/// How many groups of some size it takes to hold so many.
pub open spec fn groups(n: int, size: int) -> int {
    (n + size - 1) / size
}

/// How many blocks the first component of a frame has.
pub open spec fn blocks(b: Seq<u8>, frame: int) -> int {
    let h = across(b, frame, 0);
    let v = down(b, frame, 0);
    (groups(word(b, frame + 7) as int, 8 * h) * h) * (groups(word(b, frame + 5) as int, 8 * v) * v)
}

/// The greatest difference that so many bits can tell.
pub open spec fn greatest_step(bits: nat) -> nat
    decreases bits,
{
    if bits == 0 {
        0
    } else {
        2 * greatest_step((bits - 1) as nat) + 1
    }
}

/// How many bits a DC difference can have: the tables that a decoder falls back on
/// have eleven.
pub open spec fn category_bits(head: JpegHead) -> int {
    larger(11, head.category)
}

/// However the differences of all blocks add up, the DC values, multiplied out and
/// rounded, stay within 32 bits. The other values are not sums: of fifteen bits at
/// most, they stay within 32 bits whatever the divisor.
pub open spec fn dc_fits(b: Seq<u8>, frame: int, head: JpegHead) -> bool {
    &&& category_bits(head) <= 15
    &&& (blocks(b, frame) * greatest_step(category_bits(head) as nat)) * head.divisor + 1028
        <= 0x7fff_ffff
}

/// A JPEG that the decoder answers with a picture or an error, by its header.
///
/// It has one, three or four components, and the first of them is sampled most
/// often, so that each row buffer has the length that is reckoned with. A lone
/// component is not called a colour by an Adobe segment behind the frame header.
///
/// Where the picture is coded in one pass, its first scan has all components and is
/// its only one, and its DC values cannot outgrow their integers; and if the factors
/// of a lone component are not 1, its sides can be rounded up within sixteen bits.
/// Where it is coded in several passes and has a fourth component, no component is
/// sampled at another rate than the rest.
pub open spec fn steady_jpeg(b: Seq<u8>, head: JpegHead, scan: int) -> bool {
    match head.frame {
        None => false,
        Some(frame) => {
            let components = b[frame + 9] as int;
            &&& components == 1 || components == 3 || components == 4
            &&& word(b, frame + 2) == 8 + 3 * components
            &&& first_is_finest(b, frame, components)
            &&& components == 1 ==> !head.late_adobe
            &&& if b[frame + 1] == 0xc2 {
                components == 4 ==> across(b, frame, 0) == 1 && down(b, frame, 0) == 1
            } else {
                &&& components == 1 ==> (across(b, frame, 0) == 1 && down(b, frame, 0) == 1) || (
                word(b, frame + 5) <= 65528 && word(b, frame + 7) <= 65528)
                &&& word(b, scan + 2) == 6 + 2 * components
                &&& b[scan + 4] == components
                &&& one_scan(b, scan + 2 + word(b, scan + 2))
                &&& dc_fits(b, frame, head)
            }
        },
    }
}

/// What the header of a JPEG tells before its first segment.
pub open spec fn no_head() -> JpegHead {
    JpegHead { frame: None, late_adobe: false, category: 0, divisor: 0 }
}

/// Whether the bytes begin as a JPEG does.
pub open spec fn begins_as_jpeg(b: Seq<u8>) -> bool {
    b.len() >= 3 && b[0] == 0xff && b[1] == 0xd8 && b[2] == 0xff
}

/// Whether the bytes begin as a PNG does.
pub open spec fn begins_as_png(b: Seq<u8>) -> bool {
    b.len() >= 8 && long(b, 0) == 0x8950_4e47 && long(b, 4) == 0x0d0a_1a0a
}

/// Whether each palette of a PNG, in the chunks from some place up to the first
/// image data, has three bytes for every colour.
pub open spec fn whole_palettes(b: Seq<u8>, p: int) -> bool
    decreases b.len() - p,
{
    if p < 0 || p + 8 > b.len() || long(b, p + 4) == 0x4944_4154 {
        true
    } else {
        &&& long(b, p + 4) == 0x504c_5445 ==> long(b, p) % 3 == 0
        &&& p + 12 + long(b, p) <= b.len() ==> whole_palettes(b, p + 12 + long(b, p))
    }
}

/// Whether the decoders can be given the bytes: they answer them with a picture or
/// with an error. Of bytes that begin as neither a JPEG nor a PNG that is always
/// so, since no decoder takes them. The places in a JPEG are counted in 32 bits.
pub open spec fn readable_picture(b: Seq<u8>) -> bool {
    &&& begins_as_jpeg(b) ==> b.len() <= u32::MAX && (jpeg_head(b, 2, no_head()) matches Some(
        (head, scan),
    ) && steady_jpeg(b, head, scan))
    &&& begins_as_png(b) ==> whole_palettes(b, 8)
}

/// What the header of a JPEG tells, in machine numbers.
struct Head {
    frame: Option<usize>,
    late_adobe: bool,
    category: u8,
    divisor: u16,
}

impl View for Head {
    type V = JpegHead;

    closed spec fn view(&self) -> JpegHead {
        JpegHead {
            frame: match self.frame {
                Some(p) => Some(p as int),
                None => None,
            },
            late_adobe: self.late_adobe,
            category: self.category as int,
            divisor: self.divisor as int,
        }
    }
}

fn word_at(bytes: &[u8], p: usize) -> (r: u16)
    requires
        p + 2 <= bytes@.len(),
    ensures
        r == word(bytes@, p as int),
{
    256 * bytes[p] as u16 + bytes[p + 1] as u16
}

fn long_at(bytes: &[u8], p: usize) -> (r: u32)
    requires
        p + 4 <= bytes@.len(),
    ensures
        r == long(bytes@, p as int),
{
    let length: usize = bytes.len();
    assert(p + 4 <= length);
    65536 * word_at(bytes, p) as u32 + word_at(bytes, p + 2) as u32
}

fn sum_between(bytes: &[u8], from: usize, to: usize) -> (r: usize)
    requires
        from <= to <= bytes@.len(),
        to - from == 16,
    ensures
        r == sum(bytes@, from as int, to as int),
        r <= 16 * 255,
{
    let mut total: usize = 0;
    let mut i: usize = from;
    while i < to
        invariant
            from <= i <= to <= bytes@.len(),
            to - from == 16,
            total <= 255 * (i - from),
            total + sum(bytes@, i as int, to as int) == sum(bytes@, from as int, to as int),
        decreases to - i,
    {
        total = total + bytes[i] as usize;
        i = i + 1;
    }
    total
}

fn greatest_between(bytes: &[u8], from: usize, to: usize) -> (r: u8)
    requires
        from <= to <= bytes@.len(),
    ensures
        r == greatest(bytes@, from as int, to as int),
{
    let mut top: u8 = 0;
    let mut i: usize = from;
    while i < to
        invariant
            from <= i <= to <= bytes@.len(),
            larger(top as int, greatest(bytes@, i as int, to as int)) == greatest(
                bytes@,
                from as int,
                to as int,
            ),
        decreases to - i,
    {
        if top < bytes[i] {
            top = bytes[i];
        }
        i = i + 1;
    }
    top
}

fn category_between(bytes: &[u8], start: usize, end: usize) -> (r: Option<u8>)
    requires
        start <= end <= bytes@.len(),
    ensures
        match r {
            Some(category) => top_category(bytes@, start as int, end as int) == Some(
                category as int,
            ),
            None => top_category(bytes@, start as int, end as int) is None,
        },
{
    let mut top: u8 = 0;
    let mut p: usize = start;
    while p != end
        invariant
            start <= p <= end <= bytes@.len(),
            match top_category(bytes@, p as int, end as int) {
                Some(category) => top_category(bytes@, start as int, end as int) == Some(
                    larger(top as int, category),
                ),
                None => top_category(bytes@, start as int, end as int) is None,
            },
        decreases end - p,
    {
        if end - p < 17 {
            return None;
        }
        let symbols: usize = p + 17;
        let count: usize = sum_between(bytes, p + 1, symbols);
        if count > end - symbols {
            return None;
        }
        if bytes[p] < 16 {
            let here: u8 = greatest_between(bytes, symbols, symbols + count);
            if top < here {
                top = here;
            }
        }
        p = symbols + count;
    }
    Some(top)
}

fn divisor_between(bytes: &[u8], start: usize, end: usize) -> (r: Option<u16>)
    requires
        start <= end <= bytes@.len(),
    ensures
        match r {
            Some(divisor) => top_divisor(bytes@, start as int, end as int) == Some(divisor as int),
            None => top_divisor(bytes@, start as int, end as int) is None,
        },
{
    let mut top: u16 = 0;
    let mut p: usize = start;
    while p != end
        invariant
            start <= p <= end <= bytes@.len(),
            match top_divisor(bytes@, p as int, end as int) {
                Some(divisor) => top_divisor(bytes@, start as int, end as int) == Some(
                    larger(top as int, divisor),
                ),
                None => top_divisor(bytes@, start as int, end as int) is None,
            },
        decreases end - p,
    {
        if end - p < 65 || bytes[p] >= 32 || (bytes[p] >= 16 && end - p < 129) {
            return None;
        }
        let here: u16 = if bytes[p] < 16 {
            bytes[p + 1] as u16
        } else {
            word_at(bytes, p + 1)
        };
        p = if bytes[p] < 16 {
            p + 65
        } else {
            p + 129
        };
        if top < here {
            top = here;
        }
    }
    Some(top)
}

fn head_with_segment(bytes: &[u8], p: usize, head: Head) -> (r: Option<Head>)
    requires
        p + 4 <= bytes@.len(),
        2 <= word(bytes@, p + 2),
        p + 2 + word(bytes@, p + 2) <= bytes@.len(),
    ensures
        match r {
            Some(more) => with_segment(bytes@, p as int, head@) == Some(more@),
            None => with_segment(bytes@, p as int, head@) is None,
        },
{
    let size: usize = bytes.len();
    assert(p + 4 <= size);
    let marker: u8 = bytes[p + 1];
    let length: u16 = word_at(bytes, p + 2);
    let end: usize = p + 2 + length as usize;
    if 0xc0 <= marker && marker <= 0xc2 {
        if head.frame.is_some() || length < 8 {
            None
        } else {
            Some(Head { frame: Some(p), ..head })
        }
    } else if marker == 0xc4 {
        match category_between(bytes, p + 4, end) {
            Some(category) => {
                let category: u8 = if head.category < category {
                    category
                } else {
                    head.category
                };
                Some(Head { category, ..head })
            },
            None => None,
        }
    } else if marker == 0xdb {
        match divisor_between(bytes, p + 4, end) {
            Some(divisor) => {
                let divisor: u16 = if head.divisor < divisor {
                    divisor
                } else {
                    head.divisor
                };
                Some(Head { divisor, ..head })
            },
            None => None,
        }
    } else if marker == 0xee {
        let late_adobe = head.late_adobe || head.frame.is_some();
        Some(Head { late_adobe, ..head })
    } else if marker == 0 || marker == 0xcc || (0xd0 <= marker && marker <= 0xd9) || marker
        == 0xdc {
        None
    } else if (marker == 0xdd && length != 4) || (marker == 0xe0 && length == 6) {
        None
    } else {
        Some(head)
    }
}

/// A frame header that was found while the header was walked lies within the bytes.
spec fn frame_inside(b: Seq<u8>, head: JpegHead) -> bool {
    head.frame matches Some(frame) ==> 0 <= frame && word(b, frame + 2) >= 8 && frame + 2 + word(
        b,
        frame + 2,
    ) <= b.len()
}

fn read_head(bytes: &[u8]) -> (r: Option<(Head, usize)>)
    requires
        bytes@.len() >= 2,
    ensures
        match r {
            Some((head, scan)) => {
                &&& jpeg_head(bytes@, 2, no_head()) == Some((head@, scan as int))
                &&& frame_inside(bytes@, head@)
                &&& scan + 4 <= bytes@.len()
                &&& scan + 2 + word(bytes@, scan + 2) <= bytes@.len()
            },
            None => jpeg_head(bytes@, 2, no_head()) is None,
        },
{
    let mut head = Head { frame: None, late_adobe: false, category: 0, divisor: 0 };
    let mut p: usize = 2;
    loop
        invariant
            p <= bytes@.len(),
            frame_inside(bytes@, head@),
            jpeg_head(bytes@, 2, no_head()) == jpeg_head(bytes@, p as int, head@),
        decreases bytes@.len() - p,
    {
        if bytes.len() - p < 4 || bytes[p] != 0xff {
            return None;
        }
        if bytes[p + 1] == 0xff {
            p = p + 1;
        } else {
            let length: u16 = word_at(bytes, p + 2);
            if length < 2 || length as usize > bytes.len() - p - 2 {
                return None;
            }
            if bytes[p + 1] == 0xda {
                return Some((head, p));
            }
            match head_with_segment(bytes, p, head) {
                Some(more) => {
                    head = more;
                },
                None => {
                    return None;
                },
            }
            p = p + 2 + length as usize;
        }
    }
}

fn is_one_scan(bytes: &[u8], start: usize) -> (r: bool)
    requires
        start <= bytes@.len(),
    ensures
        r == one_scan(bytes@, start as int),
{
    let mut p: usize = start;
    while bytes.len() - p >= 2
        invariant
            p <= bytes@.len(),
            one_scan(bytes@, p as int) == one_scan(bytes@, start as int),
        decreases bytes@.len() - p,
    {
        if bytes[p] != 0xff || bytes[p + 1] == 0xff {
            p = p + 1;
        } else if bytes[p + 1] == 0 || (0xd0 <= bytes[p + 1] && bytes[p + 1] <= 0xd7) {
            p = p + 2;
        } else {
            return bytes[p + 1] == 0xd9;
        }
    }
    true
}

fn is_first_finest(bytes: &[u8], frame: usize, components: usize) -> (r: bool)
    requires
        1 <= components,
        frame + 10 + 3 * components <= bytes@.len(),
    ensures
        r == first_is_finest(bytes@, frame as int, components as int),
{
    let length: usize = bytes.len();
    let h: u8 = bytes[frame + 11] / 16;
    let v: u8 = bytes[frame + 11] % 16;
    let mut i: usize = 0;
    while i < components
        invariant
            i <= components,
            frame + 10 + 3 * components <= bytes@.len() == length,
            h == across(bytes@, frame as int, 0),
            v == down(bytes@, frame as int, 0),
            forall|j: int|
                0 <= j < i ==> 1 <= #[trigger] across(bytes@, frame as int, j) <= h && 1
                    <= down(bytes@, frame as int, j) <= v,
        decreases components - i,
    {
        let factors: u8 = bytes[frame + 11 + 3 * i];
        assert(factors as int / 16 == across(bytes@, frame as int, i as int));
        assert(factors as int % 16 == down(bytes@, frame as int, i as int));
        if factors / 16 < 1 || factors / 16 > h || factors % 16 < 1 || factors % 16 > v {
            return false;
        }
        i = i + 1;
    }
    true
}

proof fn lemma_greatest_step(bits: nat)
    requires
        bits <= 15,
    ensures
        greatest_step(bits) <= 32767,
{
    reveal_with_fuel(greatest_step, 16);
}

fn step_of_bits(bits: u8) -> (r: u64)
    requires
        bits <= 15,
    ensures
        r == greatest_step(bits as nat),
        r <= 32767,
{
    let mut step: u64 = 0;
    let mut i: u8 = 0;
    while i < bits
        invariant
            i <= bits <= 15,
            step == greatest_step(i as nat),
            step <= 32767,
        decreases bits - i,
    {
        proof {
            lemma_greatest_step(i as nat + 1);
        }
        step = 2 * step + 1;
        i = i + 1;
    }
    step
}

/// Whether the DC values of a picture that is coded in one pass stay within their
/// integers.
fn is_dc_within(bytes: &[u8], frame: usize, head: &Head) -> (r: bool)
    requires
        frame + 12 <= bytes@.len(),
        1 <= across(bytes@, frame as int, 0),
        1 <= down(bytes@, frame as int, 0),
    ensures
        r == dc_fits(bytes@, frame as int, head@),
{
    let length: usize = bytes.len();
    assert(frame + 12 <= length);
    let bits: u8 = if 11 < head.category {
        head.category
    } else {
        11
    };
    if bits > 15 {
        return false;
    }
    let h: u64 = (bytes[frame + 11] / 16) as u64;
    let v: u64 = (bytes[frame + 11] % 16) as u64;
    let width: u64 = word_at(bytes, frame + 7) as u64;
    let height: u64 = word_at(bytes, frame + 5) as u64;
    let columns: u64 = block_count(width, h);
    let rows: u64 = block_count(height, v);
    let step: u64 = step_of_bits(bits);
    let divisor: u64 = head.divisor as u64;
    proof {
        lemma_dc_products(columns as int, rows as int, step as int, divisor as int);
    }
    columns * rows * step * divisor + 1028 <= 0x7fff_ffff
}

proof fn lemma_dc_products(columns: int, rows: int, step: int, divisor: int)
    requires
        0 <= columns <= 8400,
        0 <= rows <= 8400,
        0 <= step <= 32767,
        0 <= divisor <= 65535,
    ensures
        0 <= columns * rows <= 70_560_000,
        0 <= columns * rows * step <= 70_560_000 * 32767,
        0 <= columns * rows * step * divisor <= 70_560_000 * 32767 * 65535,
{
    assert(0 <= columns * rows <= 8400 * 8400) by (nonlinear_arith)
        requires
            0 <= columns <= 8400,
            0 <= rows <= 8400,
    ;
    let blocks = columns * rows;
    assert(0 <= blocks * step <= 70_560_000 * 32767) by (nonlinear_arith)
        requires
            0 <= blocks <= 70_560_000,
            0 <= step <= 32767,
    ;
    let reach = blocks * step;
    assert(0 <= reach * divisor <= 70_560_000 * 32767 * 65535) by (nonlinear_arith)
        requires
            0 <= reach <= 70_560_000 * 32767,
            0 <= divisor <= 65535,
    ;
}

/// How many blocks it takes to hold a side, in whole units of so many blocks.
fn block_count(side: u64, factor: u64) -> (r: u64)
    requires
        side <= 65535,
        1 <= factor <= 15,
    ensures
        r == groups(side as int, 8 * factor) * factor,
        r <= 8400,
{
    let size: u64 = 8 * factor;
    let count: u64 = (side + size - 1) / size;
    proof {
        let whole = side + size - 1;
        assert(count * size <= whole) by (nonlinear_arith)
            requires
                count == whole / (size as int),
                size > 0,
                whole >= 0,
        ;
        assert(count * size == 8 * (count * factor)) by (nonlinear_arith)
            requires
                size == 8 * factor,
        ;
    }
    count * factor
}

/// Whether the decoder answers a JPEG with this header and this first scan.
fn is_steady_jpeg(bytes: &[u8], head: &Head, scan: usize) -> (r: bool)
    requires
        frame_inside(bytes@, head@),
        scan + 4 <= bytes@.len(),
        scan + 2 + word(bytes@, scan + 2) <= bytes@.len(),
    ensures
        r == steady_jpeg(bytes@, head@, scan as int),
{
    let size: usize = bytes.len();
    match head.frame {
        None => false,
        Some(frame) => {
            assert(frame + 10 <= size);
            let components: u8 = bytes[frame + 9];
            if components != 1 && components != 3 && components != 4 {
                return false;
            }
            if word_at(bytes, frame + 2) != 8 + 3 * components as u16 {
                return false;
            }
            if !is_first_finest(bytes, frame, components as usize) {
                return false;
            }
            assert(1 <= across(bytes@, frame as int, 0) && 1 <= down(bytes@, frame as int, 0));
            let plain = bytes[frame + 11] / 16 == 1 && bytes[frame + 11] % 16 == 1;
            if components == 1 && head.late_adobe {
                return false;
            }
            if bytes[frame + 1] == 0xc2 {
                components != 4 || plain
            } else {
                if components == 1 && !plain && (word_at(bytes, frame + 5) > 65528 || word_at(
                    bytes,
                    frame + 7,
                ) > 65528) {
                    return false;
                }
                let length: u16 = word_at(bytes, scan + 2);
                length == 6 + 2 * components as u16 && bytes[scan + 4] == components
                    && is_one_scan(bytes, scan + 2 + length as usize) && is_dc_within(
                    bytes,
                    frame,
                    head,
                )
            }
        },
    }
}

fn has_whole_palettes(bytes: &[u8], start: usize) -> (r: bool)
    requires
        start <= bytes@.len(),
    ensures
        r == whole_palettes(bytes@, start as int),
{
    let mut p: usize = start;
    while bytes.len() - p >= 8
        invariant
            p <= bytes@.len(),
            whole_palettes(bytes@, p as int) == whole_palettes(bytes@, start as int),
        decreases bytes@.len() - p,
    {
        let kind: u32 = long_at(bytes, p + 4);
        if kind == 0x4944_4154 {
            return true;
        }
        let length: u32 = long_at(bytes, p);
        if kind == 0x504c_5445 && length % 3 != 0 {
            return false;
        }
        if ((bytes.len() - p) as u64) < 12 + length as u64 {
            return true;
        }
        p = p + 12 + length as usize;
    }
    true
}

/// Whether the decoders can be given the bytes.
pub fn is_readable_picture(bytes: &[u8]) -> (r: bool)
    ensures
        r == readable_picture(bytes@),
{
    if bytes.len() >= 3 && bytes[0] == 0xff && bytes[1] == 0xd8 && bytes[2] == 0xff {
        return match read_head(bytes) {
            Some((head, scan)) => bytes.len() as u64 <= u32::MAX as u64 && is_steady_jpeg(
                bytes,
                &head,
                scan,
            ),
            None => false,
        };
    }
    if bytes.len() >= 8 && long_at(bytes, 0) == 0x8950_4e47 && long_at(bytes, 4) == 0x0d0a_1a0a {
        return has_whole_palettes(bytes, 8);
    }
    true
}

// ── Laws ─────────────────────────────────────────────────────────────────────

/// Bytes that begin as neither a JPEG nor a PNG can always be given to the decoders.
pub proof fn law_other_bytes_are_readable(b: Seq<u8>)
    requires
        b.len() < 3 || b[0] != 0xff || b[1] != 0xd8 || b[2] != 0xff,
        b.len() < 8 || b.take(8) != seq![0x89u8, 0x50, 0x4e, 0x47, 0x0d, 0x0a, 0x1a, 0x0a],
    ensures
        readable_picture(b),
{
    if begins_as_png(b) {
        assert(b.take(8) =~= seq![0x89u8, 0x50, 0x4e, 0x47, 0x0d, 0x0a, 0x1a, 0x0a]);
    }
}

/// A PNG can be given to the decoders exactly where the palettes before its image data
/// are whole, and a JPEG where it is not too long and its header is steady.
pub proof fn law_readable_pictures(b: Seq<u8>)
    ensures
        b.len() >= 8 && b.take(8) == seq![0x89u8, 0x50, 0x4e, 0x47, 0x0d, 0x0a, 0x1a, 0x0a] ==> (
        readable_picture(b) <==> whole_palettes(b, 8)),
        b.len() >= 3 && b.take(3) == seq![0xffu8, 0xd8, 0xff] ==> (readable_picture(b) <==> b.len()
            <= u32::MAX && (jpeg_head(b, 2, no_head()) matches Some((head, scan)) && steady_jpeg(
            b,
            head,
            scan,
        ))),
{
    if b.len() >= 8 && b.take(8) == seq![0x89u8, 0x50, 0x4e, 0x47, 0x0d, 0x0a, 0x1a, 0x0a] {
        assert(forall|i: int| 0 <= i < 8 ==> b[i] == #[trigger] b.take(8)[i]);
        assert(b[0] == 0x89 && b[1] == 0x50 && b[2] == 0x4e && b[3] == 0x47) by {
            assert(b.take(8)[0] == 0x89 && b.take(8)[1] == 0x50 && b.take(8)[2] == 0x4e && b.take(
                8,
            )[3] == 0x47);
        }
        assert(b[4] == 0x0d && b[5] == 0x0a && b[6] == 0x1a && b[7] == 0x0a) by {
            assert(b.take(8)[4] == 0x0d && b.take(8)[5] == 0x0a && b.take(8)[6] == 0x1a && b.take(
                8,
            )[7] == 0x0a);
        }
    }
    if b.len() >= 3 && b.take(3) == seq![0xffu8, 0xd8, 0xff] {
        assert(b.take(3)[0] == 0xff && b.take(3)[1] == 0xd8 && b.take(3)[2] == 0xff);
    }
}

/// The chunks of a PNG are walked one by one up to the image data: a palette must have
/// three bytes for every colour, and other chunks are passed over.
pub proof fn law_chunks_of_a_png(b: Seq<u8>, p: int, length: nat)
    requires
        0 <= p,
        p + 12 + length <= b.len(),
        length == 0x100_0000 * b[p] + 0x1_0000 * b[p + 1] + 0x100 * b[p + 2] + b[p + 3],
    ensures
        b[p + 4] == 'I' as u8 && b[p + 5] == 'D' as u8 && b[p + 6] == 'A' as u8 && b[p + 7]
            == 'T' as u8 ==> whole_palettes(b, p),
        b[p + 4] == 'P' as u8 && b[p + 5] == 'L' as u8 && b[p + 6] == 'T' as u8 && b[p + 7]
            == 'E' as u8 ==> (whole_palettes(b, p) <==> length % 3 == 0 && whole_palettes(
            b,
            p + 12 + length,
        )),
        !(b[p + 4] == 'I' as u8 && b[p + 5] == 'D' as u8 && b[p + 6] == 'A' as u8 && b[p + 7]
            == 'T' as u8) && !(b[p + 4] == 'P' as u8 && b[p + 5] == 'L' as u8 && b[p + 6]
            == 'T' as u8 && b[p + 7] == 'E' as u8) ==> (whole_palettes(b, p) <==> whole_palettes(
            b,
            p + 12 + length,
        )),
{
    assert(long(b, p) == length);
}

/// Bytes too few for another chunk end the walk.
pub proof fn law_end_of_a_png(b: Seq<u8>, p: int)
    requires
        p + 8 > b.len(),
    ensures
        whole_palettes(b, p),
{
}

/// An ordinary JPEG can be given to the decoders: one or three components, the first
/// sampled most often, without an Adobe segment behind the frame; and where it is coded
/// in one pass, one scan of all components, Huffman tables of at most eleven bits and
/// sides that the sums of its differences leave room for.
pub proof fn law_ordinary_jpegs_are_readable(b: Seq<u8>, head: JpegHead, frame: int, scan: int)
    requires
        3 <= b.len() <= u32::MAX,
        b[0] == 0xff && b[1] == 0xd8 && b[2] == 0xff,
        jpeg_head(b, 2, no_head()) == Some((head, scan)),
        head.frame == Some(frame),
        !head.late_adobe,
        b[frame + 9] == 1 || b[frame + 9] == 3,
        256 * b[frame + 2] + b[frame + 3] == 8 + 3 * b[frame + 9],
        forall|i: int|
            0 <= i < b[frame + 9] ==> 1 <= (#[trigger] b[frame + 11 + 3 * i]) / 16 <= b[frame + 11]
                / 16 && 1 <= b[frame + 11 + 3 * i] % 16 <= b[frame + 11] % 16,
        b[frame + 1] != 0xc2 ==> {
            &&& b[frame + 9] == 1 ==> b[frame + 11] == 0x11
            &&& 256 * b[scan + 2] + b[scan + 3] == 6 + 2 * b[frame + 9]
            &&& b[scan + 4] == b[frame + 9]
            &&& one_scan(b, scan + 8 + 2 * b[frame + 9])
            &&& 0 <= head.category <= 11
            &&& blocks(b, frame) * 2047 * head.divisor + 1028 <= 0x7fff_ffff
        },
    ensures
        readable_picture(b),
{
    let components = b[frame + 9] as int;
    assert(greatest_step(11) == 2047) by {
        reveal_with_fuel(greatest_step, 12);
    }
    assert forall|i: int| 0 <= i < components implies 1 <= #[trigger] across(b, frame, i) <= across(
        b,
        frame,
        0,
    ) && 1 <= down(b, frame, i) <= down(b, frame, 0) by {
        assert(1 <= b[frame + 11 + 3 * i] / 16);
    }
    assert(b[frame + 11 + 3 * 0] == b[frame + 11]);
}

/// In the header of a JPEG, fill bytes and the segments that tell nothing of the
/// picture, those of applications and comments, are passed over; the first scan ends
/// it.
pub proof fn law_segments_of_a_jpeg(b: Seq<u8>, p: int, head: JpegHead, length: nat)
    requires
        0 <= p,
        p + 4 <= b.len(),
        b[p] == 0xff,
        length == 256 * b[p + 2] + b[p + 3],
    ensures
        b[p + 1] == 0xff ==> jpeg_head(b, p, head) == jpeg_head(b, p + 1, head),
        b[p + 1] == 0xda && 2 <= length && p + 2 + length <= b.len() ==> jpeg_head(b, p, head)
            == Some((head, p)),
        (b[p + 1] == 0xfe || 0xe1 <= b[p + 1] <= 0xed || b[p + 1] == 0xef) && 2 <= length && p + 2
            + length <= b.len() ==> jpeg_head(b, p, head) == jpeg_head(b, p + 2 + length, head),
        0xc0 <= b[p + 1] <= 0xc2 && head.frame is None && 8 <= length && p + 2 + length <= b.len()
            ==> jpeg_head(b, p, head) == jpeg_head(
            b,
            p + 2 + length,
            JpegHead { frame: Some(p), ..head },
        ),
        b[p + 1] != 0xff && (length < 2 || p + 2 + length > b.len()) ==> jpeg_head(b, p, head)
            is None,
{
}

} // verus!
