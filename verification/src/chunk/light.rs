//! Light data of chunk sections and how it is laid out for clients.

use vstd::prelude::*;

verus! {

/// The number of bytes in the light data of a section.
pub const LIGHT_BYTES: usize = 2048;

/// The light of a section.
///
/// `NotSet` and `Single` differ: a client works the sky light of a section
/// that is not set out from the sky light data of the other sections.
#[derive(Clone, Debug)]
pub enum LightSection {
    NotSet,
    /// Every byte of the section's data is this one.
    Single(u8),
    FullData(Box<[u8; 2048]>),
}

impl LightSection {
    /// The bytes that are sent for the section: none where the light is not
    /// set or all dark.
    pub open spec fn sent(self) -> Option<Seq<u8>> {
        match self {
            LightSection::NotSet => None,
            LightSection::Single(b) => if b == 0 {
                None
            } else {
                Some(Seq::new(LIGHT_BYTES as nat, |i: int| b))
            },
            LightSection::FullData(data) => Some(data@),
        }
    }

    /// Whether the section is reported as dark.
    pub open spec fn reported_dark(self, is_block_light: bool) -> bool {
        match self {
            LightSection::NotSet => is_block_light,
            LightSection::Single(b) => b == 0,
            LightSection::FullData(_) => false,
        }
    }

    /// A fully lit section.
    pub fn with_full_light() -> (r: Self)
        ensures
            r == LightSection::Single(0xff),
    {
        LightSection::Single(0xff)
    }

    /// A fully dark section.
    pub fn with_zeroed_light() -> (r: Self)
        ensures
            r == LightSection::Single(0),
    {
        LightSection::Single(0)
    }

    /// A section with the given light data.
    pub fn from_data(data: [u8; 2048]) -> (r: Self)
        ensures
            r matches LightSection::FullData(held) && *held == data,
    {
        LightSection::FullData(Box::new(data))
    }
}

impl Default for LightSection {
    fn default() -> (r: Self)
        ensures
            r == LightSection::NotSet,
    {
        LightSection::NotSet
    }
}

/// One bit per light section, packed into 64-bit words from the lowest bit up.
pub struct LightMask {
    pub words: Vec<u64>,
    pub count: usize,
}

/// Bit `i` of the packed words.
pub open spec fn word_bit(words: Seq<u64>, i: int) -> bool {
    (words[i / 64] >> ((i % 64) as u64)) & 1 == 1
}

impl View for LightMask {
    type V = Seq<bool>;

    open spec fn view(&self) -> Seq<bool> {
        Seq::new(self.count as nat, |i: int| word_bit(self.words@, i))
    }
}

impl LightMask {
    /// There are just enough words, and no bit is set beyond the last section.
    pub open spec fn wf(&self) -> bool {
        &&& self.words@.len() == (self.count + 63) / 64
        &&& forall|i: int|
            self.count <= i < self.words@.len() * 64 ==> !#[trigger] word_bit(self.words@, i)
    }

    /// A mask of `count` bits, none of them set.
    pub fn new(count: usize) -> (r: Self)
        requires
            count + 63 <= usize::MAX,
        ensures
            r.wf(),
            r@ == Seq::new(count as nat, |i: int| false),
    {
        let words: Vec<u64> = vec![0u64; (count + 63) / 64];
        proof {
            assert forall|i: int| 0 <= i < words@.len() * 64 implies !#[trigger] word_bit(
                words@,
                i,
            ) by {
                let k = (i % 64) as u64;
                assert(words@[i / 64] == 0);
                assert((0u64 >> k) & 1 == 0) by (bit_vector)
                    requires
                        k < 64,
                ;
            }
        }
        LightMask { words, count }
    }

    /// Sets bit `i`.
    pub fn set(&mut self, i: usize)
        requires
            old(self).wf(),
            i < old(self)@.len(),
        ensures
            final(self).wf(),
            final(self)@ == old(self)@.update(i as int, true),
    {
        let w: usize = i / 64;
        let b: u64 = (i % 64) as u64;
        let ghost before = self.words@;
        let word: u64 = self.words[w];
        let set: u64 = word | (1u64 << b);
        self.words.set(w, set);
        proof {
            assert forall|j: int| 0 <= j < before.len() * 64 implies #[trigger] word_bit(
                self.words@,
                j,
            ) == (j == i || word_bit(before, j)) by {
                if j / 64 == w {
                    let c = (j % 64) as u64;
                    assert(((word | (1u64 << b)) >> c) & 1 == 1 <==> (c == b || (word >> c) & 1
                        == 1)) by (bit_vector)
                        requires
                            b < 64,
                            c < 64,
                    ;
                    assert(c == b <==> j == i);
                }
            }
        }
    }
}

/// The light data of the sections in `lights` that is sent, in order.
pub open spec fn sent_light(lights: Seq<LightSection>) -> Seq<Seq<u8>>
    decreases lights.len(),
{
    if lights.len() == 0 {
        Seq::empty()
    } else {
        let before = sent_light(lights.drop_last());
        match lights.last().sent() {
            Some(bytes) => before.push(bytes),
            None => before,
        }
    }
}

/// The arrays as sequences of bytes.
pub open spec fn array_views(arrays: Seq<[u8; 2048]>) -> Seq<Seq<u8>> {
    arrays.map_values(|a: [u8; 2048]| a@)
}

/// Adds section `i` with light `light` to what is sent: its bytes to
/// `light_arrays` and its bit to one of the two masks, or to neither for sky
/// light that is not set.
pub fn fill_light_data(
    light: &LightSection,
    light_arrays: &mut Vec<[u8; 2048]>,
    light_mask: &mut LightMask,
    empty_light_mask: &mut LightMask,
    i: usize,
    is_block_light: bool,
)
    requires
        old(light_mask).wf(),
        old(empty_light_mask).wf(),
        i < old(light_mask)@.len(),
        i < old(empty_light_mask)@.len(),
    ensures
        final(light_mask).wf(),
        final(empty_light_mask).wf(),
        match light.sent() {
            Some(bytes) => array_views(final(light_arrays)@) == array_views(
                old(light_arrays)@,
            ).push(bytes) && final(light_mask)@ == old(light_mask)@.update(i as int, true),
            None => final(light_arrays)@ == old(light_arrays)@ && final(light_mask)@ == old(
                light_mask,
            )@,
        },
        final(empty_light_mask)@ == if light.reported_dark(is_block_light) {
            old(empty_light_mask)@.update(i as int, true)
        } else {
            old(empty_light_mask)@
        },
{
    match light {
        LightSection::NotSet => {
            // A client works out sky light that is not set by itself.
            if is_block_light {
                empty_light_mask.set(i);
            }
        },
        LightSection::Single(b) => {
            if *b == 0 {
                empty_light_mask.set(i);
            } else {
                let filled: [u8; 2048] = [*b; 2048];
                light_arrays.push(filled);
                light_mask.set(i);
                proof {
                    assert(filled@ =~= Seq::new(LIGHT_BYTES as nat, |k: int| *b));
                    assert(array_views(light_arrays@) =~= array_views(old(light_arrays)@).push(
                        filled@,
                    ));
                }
            }
        },
        LightSection::FullData(data) => {
            light_arrays.push(**data);
            light_mask.set(i);
            proof {
                assert(array_views(light_arrays@) =~= array_views(old(light_arrays)@).push(data@));
            }
        },
    }
}

/// What is sent for the light of a chunk's sections.
pub struct LightData {
    /// Which sections have data, as packed words.
    pub mask: Vec<u64>,
    /// Which sections are reported dark, as packed words.
    pub empty_mask: Vec<u64>,
    /// The data of the sections that have some, in order.
    pub arrays: Vec<[u8; 2048]>,
}

/// Whether `words` pack exactly the bits of `bits`.
pub open spec fn packs(words: Seq<u64>, bits: Seq<bool>) -> bool {
    &&& words.len() == (bits.len() + 63) / 64
    &&& forall|i: int|
        0 <= i < words.len() * 64 ==> #[trigger] word_bit(words, i) == (i < bits.len() && bits[i])
}

impl LightData {
    /// Whether this is what is sent for `lights`.
    pub open spec fn describes(&self, lights: Seq<LightSection>, is_block_light: bool) -> bool {
        &&& packs(self.mask@, lights.map_values(|l: LightSection| l.sent() is Some))
        &&& packs(
            self.empty_mask@,
            lights.map_values(|l: LightSection| l.reported_dark(is_block_light)),
        )
        &&& array_views(self.arrays@) == sent_light(lights)
    }

    /// Collects what is sent for the light of all sections.
    pub fn collect(lights: &Vec<LightSection>, is_block_light: bool) -> (r: LightData)
        requires
            lights@.len() + 63 <= usize::MAX,
        ensures
            r.describes(lights@, is_block_light),
    {
        let n: usize = lights.len();
        let mut arrays: Vec<[u8; 2048]> = Vec::with_capacity(n);
        let mut mask = LightMask::new(n);
        let mut empty_mask = LightMask::new(n);
        let mut i: usize = 0;
        proof {
            assert(array_views(arrays@) =~= sent_light(lights@.take(0)));
        }
        while i < n
            invariant
                n == lights@.len(),
                i <= n,
                mask.wf(),
                empty_mask.wf(),
                mask@ == Seq::new(n as nat, |k: int| k < i && lights@[k].sent() is Some),
                empty_mask@ == Seq::new(
                    n as nat,
                    |k: int| k < i && lights@[k].reported_dark(is_block_light),
                ),
                array_views(arrays@) == sent_light(lights@.take(i as int)),
            decreases n - i,
        {
            fill_light_data(
                &lights[i],
                &mut arrays,
                &mut mask,
                &mut empty_mask,
                i,
                is_block_light,
            );
            proof {
                assert(lights@.take(i as int + 1).drop_last() =~= lights@.take(i as int));
                assert(lights@.take(i as int + 1).last() == lights@[i as int]);
                assert(mask@ =~= Seq::new(
                    n as nat,
                    |k: int| k < i + 1 && lights@[k].sent() is Some,
                ));
                assert(empty_mask@ =~= Seq::new(
                    n as nat,
                    |k: int| k < i + 1 && lights@[k].reported_dark(is_block_light),
                ));
            }
            i = i + 1;
        }
        proof {
            assert(lights@.take(n as int) =~= lights@);
            lemma_mask_packs(&mask, lights@.map_values(|l: LightSection| l.sent() is Some));
            lemma_mask_packs(
                &empty_mask,
                lights@.map_values(|l: LightSection| l.reported_dark(is_block_light)),
            );
        }
        LightData { mask: mask.words, empty_mask: empty_mask.words, arrays }
    }
}

/// The words of a mask pack its bits.
proof fn lemma_mask_packs(mask: &LightMask, bits: Seq<bool>)
    requires
        mask.wf(),
        mask@ =~= bits,
    ensures
        packs(mask.words@, bits),
{
    assert forall|i: int| 0 <= i < mask.words@.len() * 64 implies #[trigger] word_bit(
        mask.words@,
        i,
    ) == (i < bits.len() && bits[i]) by {
        if i < bits.len() {
            assert(mask@[i] == bits[i]);
        }
    }
}

/// A word is known by its bits.
proof fn lemma_word_unique(a: u64, b: u64, k: u64)
    requires
        k < 64,
        forall|i: u64| i < 64 ==> #[trigger] (a >> i) & 1 == (b >> i) & 1,
    ensures
        a >> k == b >> k,
    decreases 64 - k,
{
    assert((a >> k) & 1 == (b >> k) & 1);
    if k == 63 {
        assert(a >> k == b >> k) by (bit_vector)
            requires
                k == 63,
                (a >> k) & 1 == (b >> k) & 1,
        ;
    } else {
        let next = (k + 1) as u64;
        lemma_word_unique(a, b, next);
        assert(a >> k == b >> k) by (bit_vector)
            requires
                k < 63,
                next == k + 1,
                a >> next == b >> next,
                (a >> k) & 1 == (b >> k) & 1,
        ;
    }
}

/// Bits are packed in one way only.
pub proof fn bits_are_packed_in_one_way(a: Seq<u64>, b: Seq<u64>, bits: Seq<bool>)
    requires
        packs(a, bits),
        packs(b, bits),
    ensures
        a == b,
{
    assert forall|w: int| 0 <= w < a.len() implies a[w] == b[w] by {
        let x = a[w];
        let y = b[w];
        assert forall|i: u64| i < 64 implies #[trigger] (x >> i) & 1 == (y >> i) & 1 by {
            let n = w * 64 + i;
            assert(n / 64 == w && n % 64 == i);
            assert(word_bit(a, n) == word_bit(b, n));
            assert((x >> i) & 1 == 0 || (x >> i) & 1 == 1) by (bit_vector);
            assert((y >> i) & 1 == 0 || (y >> i) & 1 == 1) by (bit_vector);
        }
        lemma_word_unique(x, y, 0);
        assert(x >> 0 == x) by (bit_vector);
        assert(y >> 0 == y) by (bit_vector);
    }
    assert(a =~= b);
}

} // verus!
