//! Page state tracking with one bit per page.

use vstd::prelude::*;

verus! {

/// Bit `i` of a word, counted from the least significant one.
pub open spec fn word_bit(word: u64, i: int) -> bool {
    (word >> (i as u64)) & 1 == 1
}

/// Bit `i` of a byte, counted from the least significant one.
pub open spec fn byte_bit(byte: u8, i: int) -> bool {
    (byte >> (i as u8)) & 1 == 1
}

/// The bits of a word, least significant first.
pub open spec fn word_bits(word: u64) -> Seq<bool> {
    Seq::new(64, |i: int| word_bit(word, i))
}

/// The bits of a sequence of words, word after word.
pub open spec fn all_bits(words: Seq<u64>) -> Seq<bool> {
    Seq::new(words.len() * 64, |i: int| word_bit(words[i / 64], i % 64))
}

/// How many elements are `true`.
pub open spec fn count_true(bits: Seq<bool>) -> nat
    decreases bits.len(),
{
    if bits.len() == 0 {
        0
    } else {
        count_true(bits.drop_last()) + if bits.last() {
            1nat
        } else {
            0nat
        }
    }
}

/// The positions that hold `true`, in ascending order.
pub open spec fn true_positions(bits: Seq<bool>) -> Seq<u64>
    decreases bits.len(),
{
    if bits.len() == 0 {
        Seq::empty()
    } else if bits.last() {
        true_positions(bits.drop_last()).push((bits.len() - 1) as u64)
    } else {
        true_positions(bits.drop_last())
    }
}

/// How many words hold one bit for each of `num_pages` pages.
pub open spec fn words_for(num_pages: nat) -> nat {
    (num_pages + 63) / 64
}

/// Bytes serialize bits, eight to a byte: bit `k` of byte `j` is bit `8 * j + k`.
pub open spec fn bytes_hold_bits(data: Seq<u8>, bits: Seq<bool>) -> bool {
    &&& data.len() * 8 == bits.len()
    &&& forall|j: int, k: int|
        0 <= j < data.len() && 0 <= k < 8 ==> #[trigger] byte_bit(data[j], k) == bits[8 * j + k]
}

/// The bits that serialized bytes give to a bitmap of `num_bits` bits: bit `k` of byte `j` is bit
/// `8 * j + k`. Only whole groups of eight bytes are read; bits that no group holds are clear.
pub open spec fn bits_from_bytes(data: Seq<u8>, num_bits: nat) -> Seq<bool> {
    Seq::new(num_bits, |i: int| i / 64 < data.len() / 8 && byte_bit(data[i / 8], i % 8))
}

/// `u64::count_ones` returns the number of ones in the binary representation of its argument.
pub assume_specification[ u64::count_ones ](word: u64) -> (n: u32)
    ensures
        n == count_true(word_bits(word)),
;

/// Page state tracking using a simple bitmap.
///
/// Each bit represents a page. A set bit means that the page has been modified (dirty).
#[derive(Debug)]
pub struct PageBitmap {
    /// Bitmap data (1 bit per page)
    data: Vec<u64>,
    /// Number of pages tracked
    num_pages: u64,
}

impl View for PageBitmap {
    type V = Seq<bool>;

    /// The state of each tracked page: `true` means dirty.
    closed spec fn view(&self) -> Seq<bool> {
        all_bits(self.data@).take(self.num_pages as int)
    }
}

impl PageBitmap {
    /// There is a bit for each page, and no more words than that takes.
    pub closed spec fn wf(&self) -> bool {
        self.data@.len() == words_for(self.num_pages as nat)
    }

    /// All bits that are stored: one for each page, then the padding of the last word.
    pub closed spec fn padded(&self) -> Seq<bool> {
        all_bits(self.data@)
    }

    /// The number of dirty pages.
    pub open spec fn spec_dirty_count(&self) -> nat {
        count_true(self@)
    }

    /// Creates a new page bitmap for the given number of pages, all of them clean.
    pub fn new(num_pages: u64) -> (r: Self)
        requires
            num_pages + 63 <= u64::MAX,
            words_for(num_pages as nat) * 8 <= isize::MAX,
        ensures
            r.wf(),
            r@ == Seq::new(num_pages as nat, |i: int| false),
            r.padded() == Seq::new(words_for(num_pages as nat) * 64, |i: int| false),
            r.spec_dirty_count() == 0,
    {
        let words: usize = ((num_pages + 63) / 64) as usize;
        let r = Self { data: vec![0u64; words], num_pages };
        proof {
            assert forall|i: int| 0 <= i < r.padded().len() implies !r.padded()[i] by {
                let k = (i % 64) as u64;
                assert((0u64 >> k) & 1 == 0) by (bit_vector);
                assert(r.data@[i / 64] == 0);
            }
            assert(r.padded() =~= Seq::new(words_for(num_pages as nat) * 64, |i: int| false));
            assert(r@ =~= Seq::new(num_pages as nat, |i: int| false));
            lemma_count_clear(r@);
        }
        r
    }

    /// Returns the state of a page (true = dirty).
    pub fn is_set(&self, page_idx: u64) -> (r: bool)
        requires
            self.wf(),
        ensures
            r == (page_idx < self@.len() && self@[page_idx as int]),
    {
        if page_idx >= self.num_pages {
            return false;
        }
        proof {
            self.lemma_lengths();
            assert(page_idx / 64 < self.data.len());
        }
        let word: usize = (page_idx / 64) as usize;
        let bit: u64 = page_idx % 64;
        let x: u64 = self.data[word];
        assert((x >> bit) & 1 != 0 <==> (x >> bit) & 1 == 1) by (bit_vector);
        (x >> bit) & 1 != 0
    }

    /// Marks a page as dirty. A page that is not tracked is ignored.
    pub fn set(&mut self, page_idx: u64)
        requires
            old(self).wf(),
        ensures
            final(self).wf(),
            page_idx < old(self)@.len() ==> {
                &&& final(self)@ == old(self)@.update(page_idx as int, true)
                &&& final(self).padded() == old(self).padded().update(page_idx as int, true)
                &&& final(self).spec_dirty_count() == old(self).spec_dirty_count() + if old(self)@[page_idx as int] {
                    0int
                } else {
                    1
                }
            },
            page_idx >= old(self)@.len() ==> *final(self) == *old(self),
    {
        if page_idx >= self.num_pages {
            return ;
        }
        proof {
            self.lemma_lengths();
            assert(page_idx / 64 < self.data.len());
        }
        let word: usize = (page_idx / 64) as usize;
        let bit: u64 = page_idx % 64;
        let x: u64 = self.data[word];
        let y: u64 = x | (1u64 << bit);
        self.data[word] = y;
        proof {
            assert forall|k: u64| k < 64 implies (#[trigger] ((y >> k) & 1) == 1) == (k == bit || (x
                >> k) & 1 == 1) by {
                assert(((y >> k) & 1 == 1) == (k == bit || (x >> k) & 1 == 1)) by (bit_vector)
                    requires
                        k < 64,
                        bit < 64,
                        y == x | (1u64 << bit),
                ;
            }
            self.lemma_one_word(old(self), word as int, bit as int, true);
            law_update_counts(old(self)@, page_idx as int, true);
        }
    }

    /// Clears a page's dirty state. A page that is not tracked is ignored.
    pub fn clear(&mut self, page_idx: u64)
        requires
            old(self).wf(),
        ensures
            final(self).wf(),
            page_idx < old(self)@.len() ==> {
                &&& final(self)@ == old(self)@.update(page_idx as int, false)
                &&& final(self).padded() == old(self).padded().update(page_idx as int, false)
                &&& final(self).spec_dirty_count() == old(self).spec_dirty_count() - if old(self)@[page_idx as int] {
                    1int
                } else {
                    0
                }
            },
            page_idx >= old(self)@.len() ==> *final(self) == *old(self),
    {
        if page_idx >= self.num_pages {
            return ;
        }
        proof {
            self.lemma_lengths();
            assert(page_idx / 64 < self.data.len());
        }
        let word: usize = (page_idx / 64) as usize;
        let bit: u64 = page_idx % 64;
        let x: u64 = self.data[word];
        let y: u64 = x & !(1u64 << bit);
        self.data[word] = y;
        proof {
            assert forall|k: u64| k < 64 implies (#[trigger] ((y >> k) & 1) == 1) == (k != bit && (x
                >> k) & 1 == 1) by {
                assert(((y >> k) & 1 == 1) == (k != bit && (x >> k) & 1 == 1)) by (bit_vector)
                    requires
                        k < 64,
                        bit < 64,
                        y == x & !(1u64 << bit),
                ;
            }
            self.lemma_one_word(old(self), word as int, bit as int, false);
            law_update_counts(old(self)@, page_idx as int, false);
        }
    }

    /// Returns the number of dirty pages.
    pub fn dirty_count(&self) -> (r: u64)
        requires
            self.wf(),
        ensures
            r == self.spec_dirty_count(),
    {
        let mut total: u64 = 0;
        let mut i: usize = 0;
        proof {
            self.lemma_lengths();
            assert(self@.take(0) =~= Seq::empty());
        }
        while i < self.data.len()
            invariant
                self.wf(),
                i <= self.data@.len(),
                self@.len() == self.num_pages,
                total == count_true(
                    self@.take(
                        if 64 * i <= self@.len() {
                            64 * i
                        } else {
                            self@.len() as int
                        },
                    ),
                ),
                total <= self.num_pages,
            decreases self.data@.len() - i,
        {
            let word: u64 = self.data[i];
            let left: u64 = self.num_pages - 64 * (i as u64);
            let ghost before = self@.take(64 * i);
            if left >= 64 {
                proof {
                    assert(self@.take(64 * (i + 1)) =~= before + word_bits(word));
                    lemma_count_concat(before, word_bits(word));
                    lemma_count_bound(self@.take(64 * (i + 1)));
                }
                total = total + word.count_ones() as u64;
            } else {
                assert((1u64 << left) >= 1) by (bit_vector)
                    requires
                        left < 64,
                ;
                let mask: u64 = (1u64 << left) - 1;
                let kept: u64 = word & mask;
                proof {
                    let head = word_bits(kept).take(left as int);
                    let tail = word_bits(kept).skip(left as int);
                    assert forall|k: int| 0 <= k < 64 implies #[trigger] word_bit(kept, k) == (k
                        < left && word_bit(word, k)) by {
                        let b = k as u64;
                        assert(((kept >> b) & 1 == 1) == (b < left && (word >> b) & 1 == 1))
                            by (bit_vector)
                            requires
                                b < 64,
                                left < 64,
                                mask == (1u64 << left) - 1,
                                kept == word & mask,
                        ;
                    }
                    assert(word_bits(kept) =~= head + tail);
                    lemma_count_concat(head, tail);
                    lemma_count_clear(tail);
                    assert(self@.take(self@.len() as int) =~= before + head);
                    lemma_count_concat(before, head);
                    lemma_count_bound(self@.take(self@.len() as int));
                }
                total = total + kept.count_ones() as u64;
            }
            i = i + 1;
        }
        assert(self@.take(self@.len() as int) =~= self@);
        total
    }

    /// Returns the total number of pages tracked.
    pub fn total_pages(&self) -> (r: u64)
        requires
            self.wf(),
        ensures
            r == self@.len(),
    {
        proof {
            self.lemma_lengths();
        }
        self.num_pages
    }

    /// Serializes the bitmap to bytes: bit `k` of byte `j` is the stored bit `8 * j + k`.
    pub fn to_bytes(&self) -> (r: Vec<u8>)
        requires
            self.wf(),
        ensures
            bytes_hold_bits(r@, self.padded()),
    {
        let mut r: Vec<u8> = Vec::new();
        let mut i: usize = 0;
        while i < self.data.len()
            invariant
                self.wf(),
                i <= self.data@.len(),
                r@.len() == 8 * i,
                forall|j: int, k: int|
                    0 <= j < r@.len() && 0 <= k < 8 ==> #[trigger] byte_bit(r@[j], k)
                        == self.padded()[8 * j + k],
            decreases self.data@.len() - i,
        {
            let word: u64 = self.data[i];
            let mut n: u64 = 0;
            while n < 8
                invariant
                    self.wf(),
                    i < self.data@.len(),
                    word == self.data@[i as int],
                    n <= 8,
                    r@.len() == 8 * i + n,
                    forall|j: int, k: int|
                        0 <= j < r@.len() && 0 <= k < 8 ==> #[trigger] byte_bit(r@[j], k)
                            == self.padded()[8 * j + k],
                decreases 8 - n,
            {
                let byte: u8 = ((word >> (8 * n)) & 0xff) as u8;
                proof {
                    assert forall|k: int| 0 <= k < 8 implies #[trigger] byte_bit(byte, k)
                        == self.padded()[8 * (8 * i + n) + k] by {
                        let t = k as u8;
                        let s = (8 * n) as u64;
                        let b = (8 * n + k) as u64;
                        assert(((byte >> t) & 1 == 1) == ((word >> b) & 1 == 1)) by (bit_vector)
                            requires
                                n < 8,
                                t < 8,
                                b == 8 * n + (t as u64),
                                s == 8 * n,
                                byte == ((word >> s) & 0xff) as u8,
                        ;
                        assert((8 * (8 * i + n) + k) / 64 == i);
                        assert((8 * (8 * i + n) + k) % 64 == b);
                    }
                }
                r.push(byte);
                n = n + 1;
            }
            i = i + 1;
        }
        r
    }

    /// Deserializes a bitmap from bytes.
    pub fn from_bytes(data: &[u8], num_pages: u64) -> (r: Self)
        requires
            num_pages + 63 <= u64::MAX,
            words_for(num_pages as nat) * 8 <= isize::MAX,
        ensures
            r.wf(),
            r@.len() == num_pages,
            r.padded() == bits_from_bytes(data@, words_for(num_pages as nat) * 64),
            r@ == bits_from_bytes(data@, num_pages as nat),
    {
        let mut bitmap = Self::new(num_pages);
        let words: usize = bitmap.data.len();
        let groups: usize = data.len() / 8;
        let mut i: usize = 0;
        proof {
            bitmap.lemma_lengths();
            assert forall|w: int, b: int| 0 <= w < words && 0 <= b < 64 implies !(
            #[trigger] word_bit(bitmap.data@[w], b)) by {
                assert(!bitmap.padded()[64 * w + b]);
                assert((64 * w + b) / 64 == w);
                assert((64 * w + b) % 64 == b);
            }
        }
        while i < words && i < groups
            invariant
                bitmap.wf(),
                bitmap.num_pages == num_pages,
                words == bitmap.data@.len(),
                groups == data@.len() / 8,
                i <= words,
                i <= groups,
                forall|w: int, b: int|
                    0 <= w < i && 0 <= b < 64 ==> #[trigger] word_bit(bitmap.data@[w], b)
                        == byte_bit(data@[8 * w + b / 8], b % 8),
                forall|w: int, b: int|
                    i <= w < words && 0 <= b < 64 ==> !(#[trigger] word_bit(bitmap.data@[w], b)),
            decreases words - i,
        {
            assert(8 * i + 8 <= data.len());
            let word: u64 = word_at(data, 8 * i);
            bitmap.data[i] = word;
            i = i + 1;
        }
        proof {
            bitmap.lemma_lengths();
            let want = bits_from_bytes(data@, words_for(num_pages as nat) * 64);
            assert forall|p: int| 0 <= p < want.len() implies bitmap.padded()[p] == want[p] by {
                let w = p / 64;
                let b = p % 64;
                if w < i {
                    assert(word_bit(bitmap.data@[w], b) == byte_bit(data@[8 * w + b / 8], b % 8));
                    assert(8 * w + b / 8 == p / 8);
                    assert(b % 8 == p % 8);
                } else {
                    assert(!word_bit(bitmap.data@[w], b));
                }
            }
            assert(bitmap.padded() =~= want);
            assert(bitmap@ =~= bits_from_bytes(data@, num_pages as nat));
        }
        bitmap
    }

    /// Returns the dirty page indices in ascending order.
    pub fn iter_dirty(&self) -> (r: Vec<u64>)
        requires
            self.wf(),
        ensures
            r@ == true_positions(self@),
    {
        let mut r: Vec<u64> = Vec::new();
        let mut page_idx: u64 = 0;
        proof {
            self.lemma_lengths();
            assert(self@.take(0) =~= Seq::empty());
        }
        while page_idx < self.num_pages
            invariant
                self.wf(),
                self@.len() == self.num_pages,
                page_idx <= self.num_pages,
                r@ == true_positions(self@.take(page_idx as int)),
            decreases self.num_pages - page_idx,
        {
            assert(self@.take(page_idx + 1).drop_last() =~= self@.take(page_idx as int));
            if self.is_set(page_idx) {
                r.push(page_idx);
            }
            page_idx = page_idx + 1;
        }
        assert(self@.take(self@.len() as int) =~= self@);
        r
    }

    proof fn lemma_lengths(&self)
        requires
            self.wf(),
        ensures
            self@.len() == self.num_pages,
            self.padded().len() == words_for(self@.len()) * 64,
            self@ == self.padded().take(self@.len() as int),
    {
    }

    /// The tracked pages are the first of the stored bits; the padding is less than one word.
    pub proof fn lemma_pages_lead_padding(&self)
        requires
            self.wf(),
        ensures
            self.padded().len() == words_for(self@.len()) * 64,
            self@ == self.padded().take(self@.len() as int),
            self@.len() <= u64::MAX,
    {
    }

    /// Changing one bit of one word changes one bit of the whole.
    proof fn lemma_one_word(&self, before: &Self, word: int, bit: int, value: bool)
        requires
            before.wf(),
            self.num_pages == before.num_pages,
            0 <= word < before.data@.len(),
            0 <= bit < 64,
            word * 64 + bit < before.num_pages,
            self.data@ == before.data@.update(word, self.data@[word]),
            forall|k: u64|
                k < 64 ==> (#[trigger] ((self.data@[word] >> k) & 1) == 1) == (if k == bit {
                    value
                } else {
                    (before.data@[word] >> k) & 1 == 1
                }),
        ensures
            self.padded() == before.padded().update(word * 64 + bit, value),
            self@ == before@.update(word * 64 + bit, value),
    {
        let at = word * 64 + bit;
        self.lemma_lengths();
        before.lemma_lengths();
        assert forall|i: int| 0 <= i < self.padded().len() implies self.padded()[i]
            == before.padded().update(at, value)[i] by {
            let k = (i % 64) as u64;
            if i / 64 == word {
                assert(((self.data@[word] >> k) & 1 == 1) == (if k == bit {
                    value
                } else {
                    (before.data@[word] >> k) & 1 == 1
                }));
                assert(i == word * 64 + k);
            } else {
                assert(i != at);
                assert(self.data@[i / 64] == before.data@[i / 64]);
            }
        }
        assert(self.padded() =~= before.padded().update(at, value));
        assert(self@ =~= before@.update(at, value));
    }
}

/// The word that eight bytes hold, least significant byte first.
fn word_at(data: &[u8], at: usize) -> (word: u64)
    requires
        at + 8 <= data@.len(),
    ensures
        forall|b: int|
            0 <= b < 64 ==> #[trigger] word_bit(word, b) == byte_bit(data@[at + b / 8], b % 8),
{
    let mut word: u64 = 0;
    let mut n: usize = 0;
    proof {
        assert forall|b: int| 0 <= b < 64 implies !(#[trigger] word_bit(0, b)) by {
            let k = b as u64;
            assert((0u64 >> k) & 1 == 0) by (bit_vector);
        }
    }
    while n < 8
        invariant
            at + 8 <= data@.len(),
            n <= 8,
            forall|b: int|
                0 <= b < 64 ==> #[trigger] word_bit(word, b) == (b < 8 * n && byte_bit(
                    data@[at + b / 8],
                    b % 8,
                )),
        decreases 8 - n,
    {
        assert(at + n < data.len());
        let byte: u8 = data[at + n];
        let shift: u64 = 8 * (n as u64);
        let next: u64 = word | ((byte as u64) << shift);
        proof {
            assert forall|b: int| 0 <= b < 64 implies #[trigger] word_bit(next, b) == (b < 8 * (n
                + 1) && byte_bit(data@[at + b / 8], b % 8)) by {
                let k = b as u64;
                let t = (b % 8) as u8;
                assert(word_bit(word, b) == (b < 8 * n && byte_bit(data@[at + b / 8], b % 8)));
                lemma_or_byte(word, byte, shift, next, k, t);
                if 8 * n <= b < 8 * n + 8 {
                    assert(b / 8 == n);
                }
            }
        }
        word = next;
        n = n + 1;
    }
    word
}

/// A byte that is or-ed into a word at a byte boundary adds its bits there.
proof fn lemma_or_byte(word: u64, byte: u8, shift: u64, next: u64, k: u64, t: u8)
    requires
        k < 64,
        t == k % 8,
        shift <= 56,
        shift % 8 == 0,
        next == word | ((byte as u64) << shift),
    ensures
        ((next >> k) & 1 == 1) == ((word >> k) & 1 == 1 || (shift <= k && k < shift + 8 && (byte
            >> t) & 1 == 1)),
{
    let wide = byte as u64;
    let i = k % 8;
    assert(((next >> k) & 1 == 1) == ((word >> k) & 1 == 1 || (shift <= k && k < shift + 8 && (wide
        >> i) & 1 == 1))) by (bit_vector)
        requires
            k < 64,
            i == k % 8,
            shift <= 56,
            shift % 8 == 0,
            wide < 256,
            next == word | (wide << shift),
    ;
    assert((wide >> i) & 1 == 1 <==> ((wide as u8) >> (i as u8)) & 1 == 1) by (bit_vector)
        requires
            i < 8,
    ;
}

/// The number of `true` elements adds up over concatenation.
proof fn lemma_count_concat(a: Seq<bool>, b: Seq<bool>)
    ensures
        count_true(a + b) == count_true(a) + count_true(b),
    decreases b.len(),
{
    if b.len() == 0 {
        assert(a + b =~= a);
    } else {
        assert((a + b).drop_last() =~= a + b.drop_last());
        lemma_count_concat(a, b.drop_last());
    }
}

/// There are at most as many `true` elements as elements.
pub proof fn lemma_count_bound(a: Seq<bool>)
    ensures
        count_true(a) <= a.len(),
    decreases a.len(),
{
    if a.len() > 0 {
        lemma_count_bound(a.drop_last());
    }
}

/// Where no element is `true` the number is zero.
proof fn lemma_count_clear(a: Seq<bool>)
    requires
        forall|i: int| 0 <= i < a.len() ==> !a[i],
    ensures
        count_true(a) == 0,
    decreases a.len(),
{
    if a.len() > 0 {
        lemma_count_clear(a.drop_last());
    }
}

/// What `to_bytes` wrote, `from_bytes` reads back: every page has the state it had, and so has
/// the padding.
pub proof fn law_serialization_round_trip(bitmap: &PageBitmap, bytes: Seq<u8>)
    requires
        bitmap.wf(),
        bytes_hold_bits(bytes, bitmap.padded()),
    ensures
        bits_from_bytes(bytes, bitmap@.len()) == bitmap@,
        bits_from_bytes(bytes, words_for(bitmap@.len()) * 64) == bitmap.padded(),
{
    bitmap.lemma_pages_lead_padding();
    let bits = bitmap.padded();
    let read = bits_from_bytes(bytes, bits.len());
    assert forall|i: int| 0 <= i < bits.len() implies read[i] == bits[i] by {
        assert(byte_bit(bytes[i / 8], i % 8) == bits[8 * (i / 8) + i % 8]);
    }
    assert(read =~= bits);
    assert(bits_from_bytes(bytes, bitmap@.len()) =~= bitmap@);
}

/// The positions that `iter_dirty` lists are strictly ascending, are those of the dirty pages and
/// no others, and are as many as `dirty_count` says.
pub proof fn law_dirty_positions(bits: Seq<bool>)
    requires
        bits.len() <= u64::MAX,
    ensures
        true_positions(bits).len() == count_true(bits),
        forall|a: int, b: int|
            0 <= a < b < true_positions(bits).len() ==> true_positions(bits)[a] < true_positions(
                bits,
            )[b],
        forall|i: u64|
            #[trigger] true_positions(bits).contains(i) <==> (i < bits.len() && bits[i as int]),
    decreases bits.len(),
{
    let all = true_positions(bits);
    if bits.len() > 0 {
        let init = bits.drop_last();
        let rest = true_positions(init);
        let last = (bits.len() - 1) as u64;
        law_dirty_positions(init);
        assert forall|a: int| 0 <= a < rest.len() implies rest[a] < last by {
            assert(rest.contains(rest[a]));
        }
        assert forall|i: u64| #[trigger]
            all.contains(i) <==> (i < bits.len() && bits[i as int]) by {
            assert(rest.contains(i) <==> (i < init.len() && init[i as int]));
            if all.contains(i) && i != last {
                let a = choose|a: int| 0 <= a < all.len() && all[a] == i;
                assert(rest[a] == i);
            }
            if rest.contains(i) {
                let a = choose|a: int| 0 <= a < rest.len() && rest[a] == i;
                assert(all[a] == i);
            }
            if i == last && bits.last() {
                assert(all[rest.len() as int] == i);
            }
            if i == last && !bits.last() {
                assert(!rest.contains(i));
            }
        }
    }
}

/// Setting the state of one page moves the number of dirty pages by that page alone.
pub proof fn law_update_counts(bits: Seq<bool>, i: int, value: bool)
    requires
        0 <= i < bits.len(),
    ensures
        count_true(bits.update(i, value)) + (if bits[i] {
            1nat
        } else {
            0nat
        }) == count_true(bits) + (if value {
            1nat
        } else {
            0nat
        }),
    decreases bits.len(),
{
    let after = bits.update(i, value);
    if i == bits.len() - 1 {
        assert(after.drop_last() =~= bits.drop_last());
    } else {
        assert(after.drop_last() =~= bits.drop_last().update(i, value));
        law_update_counts(bits.drop_last(), i, value);
    }
}

/// Clearing a page that was clean before it was set undoes the setting.
pub proof fn law_clear_undoes_set(bits: Seq<bool>, i: int)
    requires
        0 <= i < bits.len(),
        !bits[i],
    ensures
        bits.update(i, true).update(i, false) == bits,
{
    assert(bits.update(i, true).update(i, false) =~= bits);
}

/// Each page has one bit in the serialized bytes, at the same place whatever the other pages are:
/// the bits of a byte from the least significant one on, byte after byte.
pub proof fn law_byte_layout(bitmap: &PageBitmap, bytes: Seq<u8>, page: int)
    requires
        bitmap.wf(),
        bytes_hold_bits(bytes, bitmap.padded()),
        0 <= page < bitmap@.len(),
    ensures
        page / 8 < bytes.len(),
        bitmap@[page] <==> (bytes[page / 8] >> ((page % 8) as u8)) & 1 == 1,
        bytes.len() % 8 == 0,
        bitmap@.len() <= bytes.len() * 8 < bitmap@.len() + 64,
{
    bitmap.lemma_pages_lead_padding();
    assert(byte_bit(bytes[page / 8], page % 8) == bitmap.padded()[8 * (page / 8) + page % 8]);
}

/// A page that is read from bytes is dirty if its bit is set in a group of eight bytes that is
/// whole, and clean otherwise.
pub proof fn law_bytes_give_pages(data: Seq<u8>, num_pages: nat, page: int)
    requires
        0 <= page < num_pages,
    ensures
        bits_from_bytes(data, num_pages).len() == num_pages,
        bits_from_bytes(data, num_pages)[page] <==> 8 * (page / 64) + 8 <= data.len() && (data[page
            / 8] >> ((page % 8) as u8)) & 1 == 1,
{
}

/// Nothing is counted where there is nothing, and each further page counts if it is dirty.
pub proof fn law_count_grows(bits: Seq<bool>, bit: bool)
    ensures
        count_true(Seq::<bool>::empty()) == 0,
        count_true(bits.push(bit)) == count_true(bits) + if bit {
            1int
        } else {
            0
        },
        count_true(bits) == 0 <==> (forall|i: int| 0 <= i < bits.len() ==> !bits[i]),
    decreases bits.len(),
{
    assert(bits.push(bit).drop_last() =~= bits);
    if bits.len() > 0 {
        law_count_grows(bits.drop_last(), bit);
        let init = bits.drop_last();
        if count_true(bits) == 0 {
            assert forall|i: int| 0 <= i < bits.len() implies !bits[i] by {
                if i < init.len() {
                    assert(!init[i]);
                }
            }
        } else if forall|i: int| 0 <= i < bits.len() ==> !bits[i] {
            assert forall|i: int| 0 <= i < init.len() implies !init[i] by {
                assert(init[i] == bits[i]);
            }
        }
    }
}

} // verus!
