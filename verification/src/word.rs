//! Fixed-width elements and their image in device memory.
//!
//! Device memory is a sequence of bytes. An element of width `w` occupies `w`
//! consecutive bytes, least significant byte first. Nothing is converted on
//! the way: the bytes are the element's own bits.

use vstd::prelude::*;

verus! {

/// The value that the bytes `b` spell when read least significant byte first.
pub open spec fn le_value(b: Seq<u8>) -> nat
    decreases b.len(),
{
    if b.len() == 0 {
        0
    } else {
        b[0] as nat + 256 * le_value(b.skip(1))
    }
}

/// The `w` low bytes of `x`, least significant byte first.
pub open spec fn le_digits(x: nat, w: nat) -> Seq<u8>
    decreases w,
{
    if w == 0 {
        Seq::empty()
    } else {
        seq![(x % 256) as u8] + le_digits(x / 256, (w - 1) as nat)
    }
}

/// 256 to the power `w`: the number of values that `w` bytes can spell.
pub open spec fn radix(w: nat) -> nat
    decreases w,
{
    if w == 0 {
        1
    } else {
        256 * radix((w - 1) as nat)
    }
}

pub proof fn lemma_digits_len(x: nat, w: nat)
    ensures
        le_digits(x, w).len() == w,
    decreases w,
{
    if w > 0 {
        lemma_digits_len(x / 256, (w - 1) as nat);
    }
}

/// Reading back the digits of `x` gives `x`, as long as `x` fits in `w` bytes.
pub proof fn lemma_value_of_digits(x: nat, w: nat)
    requires
        x < radix(w),
    ensures
        le_value(le_digits(x, w)) == x,
    decreases w,
{
    if w > 0 {
        let rest = le_digits(x / 256, (w - 1) as nat);
        let d = le_digits(x, w);
        lemma_value_of_digits(x / 256, (w - 1) as nat);
        assert(d.skip(1) =~= rest);
        assert(d[0] == (x % 256) as u8);
    }
}

/// What `w` bytes spell is below `256^w`, and its digits are those bytes.
pub proof fn lemma_digits_of_value(b: Seq<u8>)
    ensures
        le_value(b) < radix(b.len()),
        le_digits(le_value(b), b.len()) == b,
    decreases b.len(),
{
    if b.len() > 0 {
        let tail = b.skip(1);
        lemma_digits_of_value(tail);
        let v = le_value(b);
        assert(v == b[0] as nat + 256 * le_value(tail));
        assert(v % 256 == b[0] as nat);
        assert(v / 256 == le_value(tail));
        assert(le_digits(v, b.len()) =~= b);
    }
}

/// The powers of 256 at the widths that elements have.
pub proof fn lemma_radix()
    ensures
        radix(1) == 0x100,
        radix(2) == 0x1_0000,
        radix(4) == 0x1_0000_0000,
        radix(8) == 0x1_0000_0000_0000_0000,
{
    reveal_with_fuel(radix, 9);
}

/// Appends the two bytes of `n`, low byte first.
fn push_digits_2(n: u16, out: &mut Vec<u8>)
    ensures
        final(out)@ == old(out)@ + le_digits(n as nat, 2),
{
    let b0: u8 = (n % 256) as u8;
    let b1: u8 = (n / 256) as u8;
    out.push(b0);
    out.push(b1);
    proof {
        reveal_with_fuel(le_digits, 3);
        assert(out@ =~= old(out)@ + le_digits(n as nat, 2));
    }
}

/// Appends the four bytes of `n`, low byte first.
fn push_digits_4(n: u32, out: &mut Vec<u8>)
    ensures
        final(out)@ == old(out)@ + le_digits(n as nat, 4),
{
    let r1: u32 = n / 256;
    let r2: u32 = r1 / 256;
    let r3: u32 = r2 / 256;
    out.push((n % 256) as u8);
    out.push((r1 % 256) as u8);
    out.push((r2 % 256) as u8);
    out.push(r3 as u8);
    proof {
        reveal_with_fuel(le_digits, 5);
        assert(out@ =~= old(out)@ + le_digits(n as nat, 4));
    }
}

/// Appends the eight bytes of `n`, low byte first.
fn push_digits_8(n: u64, out: &mut Vec<u8>)
    ensures
        final(out)@ == old(out)@ + le_digits(n as nat, 8),
{
    let r1: u64 = n / 256;
    let r2: u64 = r1 / 256;
    let r3: u64 = r2 / 256;
    let r4: u64 = r3 / 256;
    let r5: u64 = r4 / 256;
    let r6: u64 = r5 / 256;
    let r7: u64 = r6 / 256;
    out.push((n % 256) as u8);
    out.push((r1 % 256) as u8);
    out.push((r2 % 256) as u8);
    out.push((r3 % 256) as u8);
    out.push((r4 % 256) as u8);
    out.push((r5 % 256) as u8);
    out.push((r6 % 256) as u8);
    out.push(r7 as u8);
    proof {
        reveal_with_fuel(le_digits, 9);
        assert(out@ =~= old(out)@ + le_digits(n as nat, 8));
    }
}

/// What two bytes spell.
proof fn lemma_value_2(b: Seq<u8>)
    requires
        b.len() == 2,
    ensures
        le_value(b) == b[0] + 0x100 * b[1],
{
    reveal_with_fuel(le_value, 3);
}

/// What four bytes spell.
proof fn lemma_value_4(b: Seq<u8>)
    requires
        b.len() == 4,
    ensures
        le_value(b) == b[0] + 0x100 * b[1] + 0x1_0000 * b[2] + 0x100_0000 * b[3],
{
    reveal_with_fuel(le_value, 5);
}

/// What eight bytes spell.
proof fn lemma_value_8(b: Seq<u8>)
    requires
        b.len() == 8,
    ensures
        le_value(b) == b[0] + 0x100 * b[1] + 0x1_0000 * b[2] + 0x100_0000 * b[3] + 0x1_0000_0000
            * b[4] + 0x100_0000_0000 * b[5] + 0x1_0000_0000_0000 * b[6] + 0x100_0000_0000_0000
            * b[7],
{
    reveal_with_fuel(le_value, 9);
}

/// Reads the two bytes at `at` as a number, low byte first.
fn read_digits_2(bytes: &[u8], at: usize) -> (n: u16)
    requires
        at + 2 <= bytes@.len(),
    ensures
        n == le_value(bytes@.subrange(at as int, at + 2)),
{
    proof {
        lemma_value_2(bytes@.subrange(at as int, at + 2));
    }
    let b0: u16 = bytes[at] as u16;
    let b1: u16 = bytes[at + 1] as u16;
    b0 + 0x100 * b1
}

/// Reads the four bytes at `at` as a number, low byte first.
fn read_digits_4(bytes: &[u8], at: usize) -> (n: u32)
    requires
        at + 4 <= bytes@.len(),
    ensures
        n == le_value(bytes@.subrange(at as int, at + 4)),
{
    proof {
        lemma_value_4(bytes@.subrange(at as int, at + 4));
    }
    let b0: u32 = bytes[at] as u32;
    let b1: u32 = bytes[at + 1] as u32;
    let b2: u32 = bytes[at + 2] as u32;
    let b3: u32 = bytes[at + 3] as u32;
    b0 + 0x100 * b1 + 0x1_0000 * b2 + 0x100_0000 * b3
}

/// Reads the eight bytes at `at` as a number, low byte first.
fn read_digits_8(bytes: &[u8], at: usize) -> (n: u64)
    requires
        at + 8 <= bytes@.len(),
    ensures
        n == le_value(bytes@.subrange(at as int, at + 8)),
{
    proof {
        lemma_value_8(bytes@.subrange(at as int, at + 8));
    }
    let b0: u64 = bytes[at] as u64;
    let b1: u64 = bytes[at + 1] as u64;
    let b2: u64 = bytes[at + 2] as u64;
    let b3: u64 = bytes[at + 3] as u64;
    let b4: u64 = bytes[at + 4] as u64;
    let b5: u64 = bytes[at + 5] as u64;
    let b6: u64 = bytes[at + 6] as u64;
    let b7: u64 = bytes[at + 7] as u64;
    b0 + 0x100 * b1 + 0x1_0000 * b2 + 0x100_0000 * b3 + 0x1_0000_0000 * b4 + 0x100_0000_0000 * b5
        + 0x1_0000_0000_0000 * b6 + 0x100_0000_0000_0000 * b7
}

/// An element type of host and device storage.
///
/// Each element has a bit pattern, a number below `256^width`. Device memory
/// holds the pattern's bytes, least significant first.
pub trait Word: Copy {
    /// Bytes per element.
    spec fn width() -> nat;

    /// The element's bit pattern.
    spec fn bits(self) -> nat;

    /// The element with bit pattern `n`.
    spec fn from_bits(n: nat) -> Self;

    /// The width is one of those that `radix` is known at.
    proof fn lemma_width()
        ensures
            Self::width() == 1 || Self::width() == 2 || Self::width() == 4 || Self::width() == 8,
    ;

    /// Elements and the patterns below `256^width` correspond one to one.
    proof fn lemma_bits(x: Self)
        ensures
            x.bits() < radix(Self::width()),
            Self::from_bits(x.bits()) == x,
    ;

    /// Every pattern below `256^width` is the pattern of its element.
    proof fn lemma_from_bits(n: nat)
        requires
            n < radix(Self::width()),
        ensures
            Self::from_bits(n).bits() == n,
    ;

    /// Bytes per element.
    fn size() -> (w: usize)
        ensures
            w == Self::width(),
    ;

    /// Appends the element's bytes to `out`.
    fn push_le(self, out: &mut Vec<u8>)
        ensures
            final(out)@ == old(out)@ + le_digits(self.bits(), Self::width()),
    ;

    /// The element that the bytes at `at` hold.
    fn read_le(bytes: &[u8], at: usize) -> (x: Self)
        requires
            at + Self::width() <= bytes@.len(),
        ensures
            x == Self::from_bits(le_value(bytes@.subrange(at as int, at + Self::width()))),
    ;
}

impl Word for u8 {
    open spec fn width() -> nat {
        1
    }

    open spec fn bits(self) -> nat {
        self as nat
    }

    open spec fn from_bits(n: nat) -> u8 {
        n as u8
    }

    proof fn lemma_width() {
    }

    proof fn lemma_bits(x: u8) {
        lemma_radix();
    }

    proof fn lemma_from_bits(n: nat) {
        lemma_radix();
    }

    fn size() -> (w: usize) {
        1
    }

    fn push_le(self, out: &mut Vec<u8>) {
        out.push(self);
        proof {
            reveal_with_fuel(le_digits, 2);
            assert(out@ =~= old(out)@ + le_digits(self as nat, 1));
        }
    }

    fn read_le(bytes: &[u8], at: usize) -> (x: u8) {
        proof {
            reveal_with_fuel(le_value, 2);
        }
        bytes[at]
    }
}

impl Word for u16 {
    open spec fn width() -> nat {
        2
    }

    open spec fn bits(self) -> nat {
        self as nat
    }

    open spec fn from_bits(n: nat) -> u16 {
        n as u16
    }

    proof fn lemma_width() {
    }

    proof fn lemma_bits(x: u16) {
        lemma_radix();
    }

    proof fn lemma_from_bits(n: nat) {
        lemma_radix();
    }

    fn size() -> (w: usize) {
        2
    }

    fn push_le(self, out: &mut Vec<u8>) {
        push_digits_2(self, out);
    }

    fn read_le(bytes: &[u8], at: usize) -> (x: u16) {
        read_digits_2(bytes, at)
    }
}

impl Word for u32 {
    open spec fn width() -> nat {
        4
    }

    open spec fn bits(self) -> nat {
        self as nat
    }

    open spec fn from_bits(n: nat) -> u32 {
        n as u32
    }

    proof fn lemma_width() {
    }

    proof fn lemma_bits(x: u32) {
        lemma_radix();
    }

    proof fn lemma_from_bits(n: nat) {
        lemma_radix();
    }

    fn size() -> (w: usize) {
        4
    }

    fn push_le(self, out: &mut Vec<u8>) {
        push_digits_4(self, out);
    }

    fn read_le(bytes: &[u8], at: usize) -> (x: u32) {
        read_digits_4(bytes, at)
    }
}

impl Word for u64 {
    open spec fn width() -> nat {
        8
    }

    open spec fn bits(self) -> nat {
        self as nat
    }

    open spec fn from_bits(n: nat) -> u64 {
        n as u64
    }

    proof fn lemma_width() {
    }

    proof fn lemma_bits(x: u64) {
        lemma_radix();
    }

    proof fn lemma_from_bits(n: nat) {
        lemma_radix();
    }

    fn size() -> (w: usize) {
        8
    }

    fn push_le(self, out: &mut Vec<u8>) {
        push_digits_8(self, out);
    }

    fn read_le(bytes: &[u8], at: usize) -> (x: u64) {
        read_digits_8(bytes, at)
    }
}

/// A signed element's pattern is its two's complement: a negative `x` has the
/// pattern `x + 2^64`.
impl Word for i64 {
    open spec fn width() -> nat {
        8
    }

    open spec fn bits(self) -> nat {
        if self >= 0 {
            self as nat
        } else {
            (self + 0x1_0000_0000_0000_0000) as nat
        }
    }

    open spec fn from_bits(n: nat) -> i64 {
        if n < 0x8000_0000_0000_0000 {
            n as i64
        } else {
            (n - 0x1_0000_0000_0000_0000) as i64
        }
    }

    proof fn lemma_width() {
    }

    proof fn lemma_bits(x: i64) {
        lemma_radix();
    }

    proof fn lemma_from_bits(n: nat) {
        lemma_radix();
    }

    fn size() -> (w: usize) {
        8
    }

    fn push_le(self, out: &mut Vec<u8>) {
        let pattern: u64 = if self >= 0 {
            self as u64
        } else {
            ((self - i64::MIN) as u64) + 0x8000_0000_0000_0000
        };
        push_digits_8(pattern, out);
    }

    fn read_le(bytes: &[u8], at: usize) -> (x: i64) {
        let pattern: u64 = read_digits_8(bytes, at);
        if pattern < 0x8000_0000_0000_0000 {
            pattern as i64
        } else {
            ((pattern - 0x8000_0000_0000_0000) as i64) + i64::MIN
        }
    }
}

/// The bytes that the elements `xs` occupy, one element after the other.
pub open spec fn image<W: Word>(xs: Seq<W>) -> Seq<u8>
    decreases xs.len(),
{
    if xs.len() == 0 {
        Seq::empty()
    } else {
        image(xs.drop_last()) + le_digits(xs.last().bits(), W::width())
    }
}

/// The `n` elements that the first `n * width` bytes of `b` hold.
pub open spec fn parse<W: Word>(b: Seq<u8>, n: nat) -> Seq<W>
    decreases n,
{
    if n == 0 {
        Seq::empty()
    } else {
        parse::<W>(b, (n - 1) as nat).push(
            W::from_bits(le_value(b.subrange((n - 1) * W::width(), (n * W::width()) as int))),
        )
    }
}

/// `n` elements occupy `n * width` bytes.
pub proof fn lemma_image_len<W: Word>(xs: Seq<W>)
    ensures
        image(xs).len() == xs.len() * W::width(),
    decreases xs.len(),
{
    if xs.len() > 0 {
        lemma_image_len(xs.drop_last());
        lemma_digits_len(xs.last().bits(), W::width());
        assert((xs.len() - 1) * W::width() + W::width() == xs.len() * W::width())
            by (nonlinear_arith);
    } else {
        assert(0 * W::width() == 0) by (nonlinear_arith);
    }
}

pub proof fn lemma_parse_len<W: Word>(b: Seq<u8>, n: nat)
    ensures
        parse::<W>(b, n).len() == n,
    decreases n,
{
    if n > 0 {
        lemma_parse_len::<W>(b, (n - 1) as nat);
    }
}

/// Parsing looks at the first `n * width` bytes only.
pub proof fn lemma_parse_prefix<W: Word>(a: Seq<u8>, b: Seq<u8>, n: nat)
    requires
        n * W::width() <= a.len(),
        n * W::width() <= b.len(),
        a.take((n * W::width()) as int) == b.take((n * W::width()) as int),
    ensures
        parse::<W>(a, n) == parse::<W>(b, n),
    decreases n,
{
    if n > 0 {
        let w = W::width();
        let lo: int = (n - 1) * w;
        let hi: int = (n * w) as int;
        assert(0 <= lo && lo + w == hi) by (nonlinear_arith)
            requires
                lo == (n - 1) * w,
                hi == n * w,
                n > 0,
        ;
        assert(a.take(lo) =~= a.take(hi).take(lo));
        assert(b.take(lo) =~= b.take(hi).take(lo));
        lemma_parse_prefix::<W>(a, b, (n - 1) as nat);
        assert(a.subrange(lo, hi) =~= a.take(hi).subrange(lo, hi));
        assert(b.subrange(lo, hi) =~= b.take(hi).subrange(lo, hi));
    }
}

/// Parsing the image of `xs` gives `xs` back.
pub proof fn lemma_parse_image<W: Word>(xs: Seq<W>)
    ensures
        parse::<W>(image(xs), xs.len()) == xs,
    decreases xs.len(),
{
    if xs.len() > 0 {
        let w = W::width();
        let n = xs.len();
        let front = xs.drop_last();
        let last = xs.last();
        let lo: int = (n - 1) * w;
        let hi: int = (n * w) as int;
        assert(0 <= lo && lo + w == hi) by (nonlinear_arith)
            requires
                lo == (n - 1) * w,
                hi == n * w,
                n > 0,
        ;
        lemma_image_len(front);
        lemma_image_len(xs);
        lemma_digits_len(last.bits(), w);
        assert(image(xs).take(lo) =~= image(front));
        assert(image(front).take(lo) =~= image(front));
        lemma_parse_prefix::<W>(image(xs), image(front), (n - 1) as nat);
        lemma_parse_image(front);
        assert(image(xs).subrange(lo, hi) =~= le_digits(last.bits(), w));
        W::lemma_bits(last);
        lemma_value_of_digits(last.bits(), w);
        assert(parse::<W>(image(xs), n) =~= xs);
    }
}

/// The image of what `n * width` bytes parse to is those bytes.
pub proof fn lemma_image_parse<W: Word>(b: Seq<u8>, n: nat)
    requires
        b.len() == n * W::width(),
    ensures
        image(parse::<W>(b, n)) == b,
    decreases n,
{
    if n > 0 {
        let w = W::width();
        let lo: int = (n - 1) * w;
        let hi: int = (n * w) as int;
        assert(0 <= lo && lo + w == hi) by (nonlinear_arith)
            requires
                lo == (n - 1) * w,
                hi == n * w,
                n > 0,
        ;
        let chunk = b.subrange(lo, hi);
        let xs = parse::<W>(b, n);
        let front = parse::<W>(b, (n - 1) as nat);
        assert(xs.drop_last() =~= front);
        assert(b.take(lo).take(lo) =~= b.take(lo));
        lemma_parse_prefix::<W>(b, b.take(lo), (n - 1) as nat);
        lemma_image_parse::<W>(b.take(lo), (n - 1) as nat);
        lemma_digits_of_value(chunk);
        W::lemma_from_bits(le_value(chunk));
        assert(image(xs) =~= b.take(lo) + chunk);
        assert(b.take(lo) + chunk =~= b);
    } else {
        assert(0 * W::width() == 0) by (nonlinear_arith);
        assert(image(parse::<W>(b, n)) =~= b);
    }
}

/// Element `k` of what is parsed comes from slot `k` of the bytes.
pub proof fn lemma_parse_index<W: Word>(b: Seq<u8>, n: nat, k: int)
    requires
        0 <= k < n,
    ensures
        parse::<W>(b, n).len() == n,
        parse::<W>(b, n)[k] == W::from_bits(
            le_value(b.subrange(k * W::width(), (k + 1) * W::width())),
        ),
    decreases n,
{
    lemma_parse_len::<W>(b, n);
    lemma_parse_len::<W>(b, (n - 1) as nat);
    if k < n - 1 {
        lemma_parse_index::<W>(b, (n - 1) as nat, k);
    } else {
        assert((n * W::width()) as int == (k + 1) * W::width()) by (nonlinear_arith)
            requires
                k == n - 1,
        ;
    }
}

/// Slot `k` of the image of `xs` holds the bytes of element `k`.
pub proof fn lemma_image_slot<W: Word>(xs: Seq<W>, k: int)
    requires
        0 <= k < xs.len(),
    ensures
        0 <= k * W::width(),
        (k + 1) * W::width() <= image(xs).len(),
        image(xs).subrange(k * W::width(), (k + 1) * W::width()) == le_digits(
            xs[k].bits(),
            W::width(),
        ),
    decreases xs.len(),
{
    let w = W::width();
    let n = xs.len();
    let front = xs.drop_last();
    lemma_image_len(xs);
    lemma_image_len(front);
    lemma_digits_len(xs.last().bits(), w);
    assert(0 <= k * w && (k + 1) * w <= n * w && k * w + w == (k + 1) * w) by (nonlinear_arith)
        requires
            0 <= k < n,
    ;
    if k < n - 1 {
        lemma_image_slot(front, k);
        assert((k + 1) * w <= (n - 1) * w) by (nonlinear_arith)
            requires
                k < n - 1,
        ;
        assert(image(xs).subrange(k * w, (k + 1) * w) =~= image(front).subrange(
            k * w,
            (k + 1) * w,
        ));
    } else {
        assert(image(xs).subrange(k * w, (k + 1) * w) =~= le_digits(xs.last().bits(), w));
    }
}

/// The bytes of `xs`, as device memory holds them.
pub fn encode<W: Word>(xs: &Vec<W>) -> (out: Vec<u8>)
    ensures
        out@ == image(xs@),
{
    let mut out: Vec<u8> = Vec::new();
    let mut i: usize = 0;
    while i < xs.len()
        invariant
            i <= xs.len(),
            out@ == image(xs@.take(i as int)),
        decreases xs.len() - i,
    {
        xs[i].push_le(&mut out);
        proof {
            let next = xs@.take(i + 1);
            assert(next.drop_last() =~= xs@.take(i as int));
            assert(next.last() == xs@[i as int]);
        }
        i += 1;
    }
    proof {
        assert(xs@.take(xs.len() as int) =~= xs@);
    }
    out
}

/// The elements that `bytes` hold, if they hold a whole number of them.
pub fn decode<W: Word>(bytes: &[u8]) -> (r: Option<Vec<W>>)
    ensures
        r is Some <==> bytes@.len() % W::width() == 0,
        r matches Some(xs) ==> {
            &&& xs@.len() * W::width() == bytes@.len()
            &&& xs@ == parse::<W>(bytes@, xs@.len())
            &&& image(xs@) == bytes@
        },
{
    let w: usize = W::size();
    proof {
        W::lemma_width();
    }
    if bytes.len() % w != 0 {
        return None;
    }
    let n: usize = bytes.len() / w;
    proof {
        assert(n * w == bytes@.len()) by (nonlinear_arith)
            requires
                n == bytes@.len() / (w as nat),
                bytes@.len() % (w as nat) == 0,
                w > 0,
        ;
    }
    let mut xs: Vec<W> = Vec::new();
    let mut k: usize = 0;
    let mut at: usize = 0;
    while k < n
        invariant
            k <= n,
            w == W::width(),
            w > 0,
            at == k * w,
            n * w == bytes@.len(),
            bytes@.len() <= usize::MAX,
            xs@ == parse::<W>(bytes@, k as nat),
        decreases n - k,
    {
        proof {
            assert(at + w <= bytes@.len() && at + w == (k + 1) * w) by (nonlinear_arith)
                requires
                    at == k * w,
                    n * w == bytes@.len(),
                    k < n,
                    w > 0,
            ;
        }
        let x: W = W::read_le(bytes, at);
        xs.push(x);
        at = at + w;
        k = k + 1;
    }
    proof {
        lemma_parse_len::<W>(bytes@, n as nat);
        lemma_image_parse::<W>(bytes@, n as nat);
    }
    Some(xs)
}

} // verus!
