//! Decoding the machine ISA register.
//!
//! The register is a bit-vector: bit `i` of its low 26 bits stands for the
//! extension whose letter is `'A' + i`, and its two top bits give the
//! machine's native width. [`Misa`] holds the raw value and answers the
//! questions the firmware asks of it; [`Misa::decode`] turns it into the
//! letters to show.
//!
//! Two orders of presentation exist. The table policy lists the standard
//! extensions in their canonical order and collects every other letter in a
//! second, parenthesised list. The bit-position policy lists all letters by
//! ascending bit index, after folding the bundle I, M, A, F, D into the
//! single letter G. The bundle is folded only when all five of its bits are
//! set; a partial bundle is shown letter by letter.

use vstd::prelude::*;

verus! {

/// Number of extension letters.
pub const LETTER_COUNT: usize = 26;

/// Bit index of the aggregate extension G.
pub const AGGREGATE_BIT: usize = 6;

/// Bit index of the non-standard extension marker X.
pub const NONSTANDARD_BIT: usize = 23;

/// The bits that G stands for: A (0), D (3), F (5), I (8) and M (12).
pub const AGGREGATE_MEMBERS: usize = 0x1129;

/// The standard extensions in their canonical order.
pub const STANDARD_EXT_NAME_ORDER: [char; 15] = [
    'I', 'E', 'M', 'A', 'F', 'D', 'Q', 'L', 'C', 'B', 'J', 'T', 'P', 'V', 'N',
];

/// Extension bits whose ordering or meaning is unspecified.
pub const UNSPEC_EXT_NAME_ORDER: [char; 11] = [
    'G', 'H', 'K', 'O', 'R', 'S', 'U', 'W', 'X', 'Y', 'Z',
];

/// All letters by ascending bit index.
pub const BIT_POSITION_ORDER: [char; 26] = [
    'A', 'B', 'C', 'D', 'E', 'F', 'G', 'H', 'I', 'J', 'K', 'L', 'M', 'N', 'O', 'P', 'Q', 'R', 'S',
    'T', 'U', 'V', 'W', 'X', 'Y', 'Z',
];

/// Native width of the machine, from the two top bits of the register.
#[derive(Clone, Copy, Debug, PartialEq, Eq, Structural)]
pub enum Mxl {
    Xlen32,
    Xlen64,
    Xlen128,
}

/// Order in which extension letters are presented.
#[derive(Clone, Copy, Debug, PartialEq, Eq, Structural)]
pub enum DecodePolicy {
    /// Canonical table order, other letters in a second list.
    Table,
    /// Ascending bit index, with the bundle I, M, A, F, D folded into G.
    BitPosition,
}

/// Bit index that stands for the extension `letter`: the distance of the
/// letter's low code byte from `'A'`, or 0 for anything below `'A'`.
pub open spec fn extension_bit(letter: char) -> nat {
    let code = (letter as u32 % 256) as nat;
    if code >= 65 {
        (code - 65) as nat
    } else {
        0
    }
}

/// Whether bit `i` of `bits` is set.
pub open spec fn bit_set(bits: usize, i: nat) -> bool {
    (bits >> (i as usize)) & 1 == 1
}

/// Whether `bits` reports the extension `letter`.
pub open spec fn extension_present(bits: usize, letter: char) -> bool {
    extension_bit(letter) < LETTER_COUNT && bit_set(bits, extension_bit(letter))
}

/// The predicate "`bits` reports this letter".
pub open spec fn present_in(bits: usize) -> spec_fn(char) -> bool {
    |letter: char| extension_present(bits, letter)
}

/// The letters of `order` that `bits` reports, in the order of `order`.
pub open spec fn present_letters(bits: usize, order: Seq<char>) -> Seq<char> {
    order.filter(present_in(bits))
}

/// The width field: the two top bits of the register.
pub open spec fn mxl_field(bits: usize) -> usize {
    bits >> ((usize::BITS - 2) as usize)
}

/// The machine width that `bits` reports, if the width field holds one.
pub open spec fn mxl_of(bits: usize) -> Option<Mxl> {
    let field = mxl_field(bits);
    if field == 1 {
        Some(Mxl::Xlen32)
    } else if field == 2 {
        Some(Mxl::Xlen64)
    } else if field == 3 {
        Some(Mxl::Xlen128)
    } else {
        None
    }
}

/// Whether all five members of the bundle that G stands for are set.
pub open spec fn bundle_complete(bits: usize) -> bool {
    bits & AGGREGATE_MEMBERS == AGGREGATE_MEMBERS
}

/// `bits` with a complete bundle replaced by the single bit G. A partial
/// bundle, and everything else, is left as it is.
pub open spec fn fold_aggregate(bits: usize) -> usize {
    if bundle_complete(bits) {
        (bits & !AGGREGATE_MEMBERS) | (1usize << AGGREGATE_BIT)
    } else {
        bits
    }
}

/// The bit-vector whose letters are shown under `policy`.
pub open spec fn effective_bits(bits: usize, policy: DecodePolicy) -> usize {
    match policy {
        DecodePolicy::Table => bits,
        DecodePolicy::BitPosition => fold_aggregate(bits),
    }
}

/// The main list of letters under `policy`.
pub open spec fn standard_letters(bits: usize, policy: DecodePolicy) -> Seq<char> {
    match policy {
        DecodePolicy::Table => present_letters(bits, STANDARD_EXT_NAME_ORDER@),
        DecodePolicy::BitPosition => present_letters(fold_aggregate(bits), BIT_POSITION_ORDER@),
    }
}

/// The second, parenthesised list of letters under `policy`.
pub open spec fn unspecified_letters(bits: usize, policy: DecodePolicy) -> Seq<char> {
    match policy {
        DecodePolicy::Table => present_letters(bits, UNSPEC_EXT_NAME_ORDER@),
        DecodePolicy::BitPosition => Seq::empty(),
    }
}

/// What [`Misa::decode`] yields.
#[derive(Clone, Debug, PartialEq, Eq)]
pub struct Extensions {
    /// Letters of the main list, in the order of presentation.
    pub standard: Vec<char>,
    /// Letters of the second list, in the order of presentation.
    pub unspecified: Vec<char>,
    /// G is shown, so further standard extensions may exist that the
    /// register cannot name.
    pub aggregate: bool,
    /// X is shown, so non-standard extensions exist that the register
    /// cannot name.
    pub nonstandard: bool,
}

/// A value of the machine ISA register.
#[derive(Clone, Copy, Debug, PartialEq, Eq, Structural)]
pub struct Misa {
    raw: usize,
}

impl Misa {
    /// The raw register value.
    pub closed spec fn spec_bits(&self) -> usize {
        self.raw
    }

    /// Wraps a raw register value.
    pub fn from_bits(bits: usize) -> (misa: Misa)
        ensures
            misa.spec_bits() == bits,
    {
        Misa { raw: bits }
    }

    /// The raw register value.
    pub fn bits(&self) -> (bits: usize)
        ensures
            bits == self.spec_bits(),
    {
        self.raw
    }

    /// The machine width, if the width field holds one of the three
    /// defined codes.
    pub fn mxl(&self) -> (mxl: Option<Mxl>)
        ensures
            mxl == mxl_of(self.spec_bits()),
    {
        misa_mxl(self.raw)
    }

    /// Whether the register reports the extension `letter`.
    pub fn has_extension(&self, letter: char) -> (present: bool)
        ensures
            present == extension_present(self.spec_bits(), letter),
    {
        misa_has_extension(self.raw, letter)
    }

    /// The register value whose letters are shown under `policy`.
    pub fn effective(&self, policy: DecodePolicy) -> (shown: Misa)
        ensures
            shown.spec_bits() == effective_bits(self.spec_bits(), policy),
    {
        match policy {
            DecodePolicy::Table => *self,
            DecodePolicy::BitPosition => {
                if self.raw & AGGREGATE_MEMBERS == AGGREGATE_MEMBERS {
                    Misa { raw: (self.raw & !AGGREGATE_MEMBERS) | (1usize << AGGREGATE_BIT) }
                } else {
                    *self
                }
            },
        }
    }

    /// The letters of `order` that the register reports, in that order.
    pub fn collect(&self, order: &[char]) -> (letters: Vec<char>)
        ensures
            letters@ == present_letters(self.spec_bits(), order@),
    {
        let mut letters: Vec<char> = Vec::new();
        let mut i: usize = 0;
        proof {
            reveal(Seq::filter);
            assert(order@.take(0) == Seq::<char>::empty());
        }
        while i < order.len()
            invariant
                i <= order@.len(),
                letters@ == present_letters(self.spec_bits(), order@.take(i as int)),
            decreases order@.len() - i,
        {
            let letter = order[i];
            let ghost seen = order@.take(i as int);
            proof {
                assert(order@.take(i + 1) == seen.push(letter));
                Seq::lemma_filter_push(seen, letter, present_in(self.spec_bits()));
            }
            if self.has_extension(letter) {
                letters.push(letter);
            }
            i = i + 1;
        }
        assert(order@.take(order@.len() as int) == order@);
        letters
    }

    /// Decodes the register into the letters to show under `policy`.
    ///
    /// Under either policy a letter is shown exactly when its bit is set in
    /// the shown register value, and the two notes follow the letters G
    /// and X.
    pub fn decode(&self, policy: DecodePolicy) -> (shown: Extensions)
        ensures
            shown.standard@ == standard_letters(self.spec_bits(), policy),
            shown.unspecified@ == unspecified_letters(self.spec_bits(), policy),
            shown.aggregate == bit_set(
                effective_bits(self.spec_bits(), policy),
                AGGREGATE_BIT as nat,
            ),
            shown.nonstandard == bit_set(
                effective_bits(self.spec_bits(), policy),
                NONSTANDARD_BIT as nat,
            ),
    {
        let effective = self.effective(policy);
        let standard = match policy {
            DecodePolicy::Table => effective.collect(&STANDARD_EXT_NAME_ORDER),
            DecodePolicy::BitPosition => effective.collect(&BIT_POSITION_ORDER),
        };
        let unspecified = match policy {
            DecodePolicy::Table => effective.collect(&UNSPEC_EXT_NAME_ORDER),
            DecodePolicy::BitPosition => Vec::new(),
        };
        let aggregate = effective.has_extension('G');
        let nonstandard = effective.has_extension('X');
        Extensions { standard, unspecified, aggregate, nonstandard }
    }
}

/// `Misa::has_extension` of the `riscv` crate, on a register built from
/// `bits`. The letter's low code byte picks the bit, counted from `'A'`
/// (anything below `'A'` picks bit 0); a bit index above 25 is never
/// reported, and otherwise the answer is whether that bit of `bits` is set.
#[verifier::external_body]
fn misa_has_extension(bits: usize, letter: char) -> (present: bool)
    ensures
        present == extension_present(bits, letter),
{
    riscv::register::misa::Misa::from_bits(bits).has_extension(letter)
}

/// `Misa::try_mxl` of the `riscv` crate, on a register built from `bits`.
/// The two top bits of the register are read as a number: 1, 2 and 3 stand
/// for 32, 64 and 128 bits, and 0 is an error, given here as `None`.
#[verifier::external_body]
fn misa_mxl(bits: usize) -> (mxl: Option<Mxl>)
    ensures
        mxl == mxl_of(bits),
{
    match riscv::register::misa::Misa::from_bits(bits).try_mxl() {
        Ok(riscv::register::misa::XLEN::XLEN32) => Some(Mxl::Xlen32),
        Ok(riscv::register::misa::XLEN::XLEN64) => Some(Mxl::Xlen64),
        Ok(riscv::register::misa::XLEN::XLEN128) => Some(Mxl::Xlen128),
        Err(_) => None,
    }
}

/// Whether `letter` is one of the 26 extension letters.
pub open spec fn is_extension_letter(letter: char) -> bool {
    'A' <= letter <= 'Z'
}

/// The canonical table followed by the unspecified letters: the order of
/// presentation under the table policy, both lists taken together.
pub open spec fn table_order() -> Seq<char> {
    STANDARD_EXT_NAME_ORDER@ + UNSPEC_EXT_NAME_ORDER@
}

/// The order that the letters of both lists are taken from under `policy`.
pub open spec fn presentation_order(policy: DecodePolicy) -> Seq<char> {
    match policy {
        DecodePolicy::Table => table_order(),
        DecodePolicy::BitPosition => BIT_POSITION_ORDER@,
    }
}

/// Both lists under `policy`, the main list first.
pub open spec fn shown_letters(bits: usize, policy: DecodePolicy) -> Seq<char> {
    standard_letters(bits, policy) + unspecified_letters(bits, policy)
}

/// Where a letter stands in the table order.
pub open spec fn table_position(letter: char) -> int {
    if letter == 'I' {
        0
    } else if letter == 'E' {
        1
    } else if letter == 'M' {
        2
    } else if letter == 'A' {
        3
    } else if letter == 'F' {
        4
    } else if letter == 'D' {
        5
    } else if letter == 'Q' {
        6
    } else if letter == 'L' {
        7
    } else if letter == 'C' {
        8
    } else if letter == 'B' {
        9
    } else if letter == 'J' {
        10
    } else if letter == 'T' {
        11
    } else if letter == 'P' {
        12
    } else if letter == 'V' {
        13
    } else if letter == 'N' {
        14
    } else if letter == 'G' {
        15
    } else if letter == 'H' {
        16
    } else if letter == 'K' {
        17
    } else if letter == 'O' {
        18
    } else if letter == 'R' {
        19
    } else if letter == 'S' {
        20
    } else if letter == 'U' {
        21
    } else if letter == 'W' {
        22
    } else if letter == 'X' {
        23
    } else if letter == 'Y' {
        24
    } else {
        25
    }
}

/// Both orders of presentation hold each of the 26 letters once and
/// nothing else.
pub proof fn lemma_orders_are_alphabets(policy: DecodePolicy)
    ensures
        presentation_order(policy).len() == LETTER_COUNT,
        presentation_order(policy).no_duplicates(),
        forall|letter: char|
            presentation_order(policy).contains(letter) <==> is_extension_letter(letter),
{
    let order = presentation_order(policy);
    match policy {
        DecodePolicy::Table => {
            assert forall|i: int| 0 <= i < 26 implies table_position(#[trigger] order[i]) == i
                && is_extension_letter(order[i]) by {
                if i < 15 {
                    assert(order[i] == STANDARD_EXT_NAME_ORDER@[i]);
                } else {
                    assert(order[i] == UNSPEC_EXT_NAME_ORDER@[i - 15]);
                }
            }
            assert forall|letter: char| is_extension_letter(letter) implies order.contains(
                letter,
            ) by {
                let i = table_position(letter);
                if i < 15 {
                    assert(order[i] == STANDARD_EXT_NAME_ORDER@[i]);
                } else {
                    assert(order[i] == UNSPEC_EXT_NAME_ORDER@[i - 15]);
                }
                assert(order[i] == letter);
            }
        },
        DecodePolicy::BitPosition => {
            assert forall|i: int| 0 <= i < 26 implies (#[trigger] order[i]) as int == 65 + i by {}
            assert forall|letter: char| is_extension_letter(letter) implies order.contains(
                letter,
            ) by {
                assert(order[letter as int - 65] == letter);
            }
        },
    }
}

/// Filtering keeps the order: of two elements that pass, the one that
/// comes first in the result came first in the sequence.
pub proof fn lemma_filter_keeps_order<A>(s: Seq<A>, pred: spec_fn(A) -> bool, i: int, j: int)
    requires
        0 <= i < j < s.filter(pred).len(),
    ensures
        exists|a: int, b: int|
            0 <= a < b < s.len() && s[a] == s.filter(pred)[i] && s[b] == s.filter(pred)[j],
    decreases s.len(),
{
    reveal(Seq::filter);
    let kept = s.filter(pred);
    let rest = s.drop_last();
    if j < rest.filter(pred).len() {
        lemma_filter_keeps_order(rest, pred, i, j);
        let (a, b) = choose|a: int, b: int|
            0 <= a < b < rest.len() && rest[a] == rest.filter(pred)[i] && rest[b] == rest.filter(
                pred,
            )[j];
        assert(s[a] == kept[i] && s[b] == kept[j]);
    } else {
        let earlier = rest.filter(pred);
        assert(earlier.contains(earlier[i]));
        rest.lemma_filter_contains_rev(pred, earlier[i]);
        let a = choose|a: int| 0 <= a < rest.len() && rest[a] == earlier[i];
        let b = s.len() - 1;
        assert(s[a] == kept[i] && s[b] == kept[j]);
    }
}

/// What is kept of a sequence without duplicates has none either, holds
/// only elements that pass, and holds each element of the sequence that
/// passes.
pub proof fn lemma_filter_of_distinct<A>(s: Seq<A>, pred: spec_fn(A) -> bool)
    requires
        s.no_duplicates(),
    ensures
        s.filter(pred).no_duplicates(),
        forall|x: A| s.filter(pred).contains(x) <==> s.contains(x) && pred(x),
{
    let kept = s.filter(pred);
    assert forall|i: int, j: int| 0 <= i < j < kept.len() implies kept[i] != kept[j] by {
        lemma_filter_keeps_order(s, pred, i, j);
    }
    assert forall|x: A| kept.contains(x) <==> s.contains(x) && pred(x) by {
        if kept.contains(x) {
            s.lemma_filter_contains_rev(pred, x);
            let i = choose|i: int| 0 <= i < kept.len() && kept[i] == x;
            s.lemma_filter_pred(pred, i);
        }
        if s.contains(x) && pred(x) {
            let i = choose|i: int| 0 <= i < s.len() && s[i] == x;
            s.lemma_filter_contains(pred, i);
        }
    }
}

/// Both lists together are what the order of presentation keeps of the
/// shown register value.
pub proof fn lemma_shown_is_filtered(bits: usize, policy: DecodePolicy)
    ensures
        shown_letters(bits, policy) == present_letters(
            effective_bits(bits, policy),
            presentation_order(policy),
        ),
{
    match policy {
        DecodePolicy::Table => {
            Seq::filter_distributes_over_add(
                STANDARD_EXT_NAME_ORDER@,
                UNSPEC_EXT_NAME_ORDER@,
                present_in(bits),
            );
        },
        DecodePolicy::BitPosition => {},
    }
}

/// One letter for each active bit: under either policy every letter whose
/// bit is set in the shown register value appears exactly once, in one of
/// the two lists, and nothing else appears at all.
pub proof fn lemma_each_active_bit_once(bits: usize, policy: DecodePolicy)
    ensures
        shown_letters(bits, policy).no_duplicates(),
        forall|letter: char|
            shown_letters(bits, policy).contains(letter) <==> is_extension_letter(letter)
                && bit_set(effective_bits(bits, policy), (letter as int - 65) as nat),
{
    let shown = effective_bits(bits, policy);
    let order = presentation_order(policy);
    lemma_shown_is_filtered(bits, policy);
    lemma_orders_are_alphabets(policy);
    lemma_filter_of_distinct(order, present_in(shown));
    assert forall|letter: char| is_extension_letter(letter) implies extension_present(
        shown,
        letter,
    ) == bit_set(shown, (letter as int - 65) as nat) by {
        assert(extension_bit(letter) == letter as int - 65);
    }
}

/// Under either policy the letters of a list stand in the order of
/// presentation: of two letters in the main list, the one shown first
/// comes first in that order.
pub proof fn lemma_presentation_order_kept(bits: usize, policy: DecodePolicy, i: int, j: int)
    requires
        0 <= i < j < standard_letters(bits, policy).len(),
    ensures
        presentation_order(policy).index_of(standard_letters(bits, policy)[i])
            < presentation_order(policy).index_of(standard_letters(bits, policy)[j]),
{
    let order = presentation_order(policy);
    let shown = effective_bits(bits, policy);
    let main_order = match policy {
        DecodePolicy::Table => STANDARD_EXT_NAME_ORDER@,
        DecodePolicy::BitPosition => BIT_POSITION_ORDER@,
    };
    let list = standard_letters(bits, policy);
    assert(list == main_order.filter(present_in(shown)));
    lemma_filter_keeps_order(main_order, present_in(shown), i, j);
    let (a, b) = choose|a: int, b: int|
        0 <= a < b < main_order.len() && main_order[a] == list[i] && main_order[b] == list[j];
    lemma_orders_are_alphabets(policy);
    assert(order[a] == main_order[a] && order[b] == main_order[b]);
    assert(order.contains(list[i]) && order.contains(list[j]));
    order.index_of_first_ensures(list[i]);
    order.index_of_first_ensures(list[j]);
}

/// Under the bit-position policy the letters ascend.
pub proof fn lemma_bit_position_ascends(bits: usize, i: int, j: int)
    requires
        0 <= i < j < standard_letters(bits, DecodePolicy::BitPosition).len(),
    ensures
        standard_letters(bits, DecodePolicy::BitPosition)[i] < standard_letters(
            bits,
            DecodePolicy::BitPosition,
        )[j],
{
    let list = standard_letters(bits, DecodePolicy::BitPosition);
    lemma_filter_keeps_order(BIT_POSITION_ORDER@, present_in(fold_aggregate(bits)), i, j);
    let (a, b) = choose|a: int, b: int|
        0 <= a < b < 26 && BIT_POSITION_ORDER@[a] == list[i] && BIT_POSITION_ORDER@[b] == list[j];
    assert(BIT_POSITION_ORDER@[a] as int == 65 + a);
    assert(BIT_POSITION_ORDER@[b] as int == 65 + b);
}

/// Folding replaces a complete bundle by G and touches nothing else: the
/// five member bits are cleared, G is set, and every other bit stays. A
/// register value without the complete bundle is not changed.
pub proof fn lemma_fold_aggregate(bits: usize, i: nat)
    requires
        i < usize::BITS,
    ensures
        !bundle_complete(bits) ==> fold_aggregate(bits) == bits,
        bundle_complete(bits) ==> bit_set(fold_aggregate(bits), i) == if i == AGGREGATE_BIT {
            true
        } else if i == 0 || i == 3 || i == 5 || i == 8 || i == 12 {
            false
        } else {
            bit_set(bits, i)
        },
        bundle_complete(bits) == (bit_set(bits, 0) && bit_set(bits, 3) && bit_set(bits, 5)
            && bit_set(bits, 8) && bit_set(bits, 12)),
{
    let index = i as usize;
    let folded: usize = (bits & !AGGREGATE_MEMBERS) | (1usize << AGGREGATE_BIT);
    assert(((folded >> index) & 1 == 1) == if index == 6 {
        true
    } else if index == 0 || index == 3 || index == 5 || index == 8 || index == 12 {
        false
    } else {
        (bits >> index) & 1 == 1
    }) by (bit_vector)
        requires
            folded == (bits & !0x1129usize) | (1usize << 6usize),
            index < usize::BITS,
    ;
    assert((bits & 0x1129usize == 0x1129usize) == ((bits >> 0usize) & 1 == 1 && (bits >> 3usize) & 1
        == 1 && (bits >> 5usize) & 1 == 1 && (bits >> 8usize) & 1 == 1 && (bits >> 12usize) & 1
        == 1)) by (bit_vector);
}

} // verus!
