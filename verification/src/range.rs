//! CIDR blocks and the hosts they denote.

use crate::address::{
    decimal_text, decimal_text_reads_back, dotted_quad, dotted_quad_text, dotted_quad_text_bytes,
    dotted_quad_text_reads_back, parse_dotted_quad, Ipv4Address,
};
use crate::text::{
    find_byte, no_byte_from, position_of, position_of_found, read_small_number, small_number,
    PLUS, SLASH,
};
use vstd::arithmetic::power2::{lemma2_to64, lemma_pow2_strictly_increases, pow2};
use vstd::bits::{lemma_u32_low_bits_mask_is_mod, lemma_u32_shl_is_mul, lemma_u64_shl_is_mul};
use vstd::prelude::*;
use vstd::slice::slice_subrange;
use vstd::string::StringSliceAdditionalSpecFns;

verus! {

/// The longest prefix an IPv4 block can have.
pub const MAX_PREFIX: u8 = 32;

/// Why a text was not taken as a CIDR block.
#[derive(Clone, Copy, Debug, PartialEq, Eq, Structural)]
pub enum ParseError {
    /// The text does not hold exactly one `/`.
    Malformed,
    /// What stands before the `/` is not a dotted-quad address.
    BadAddress,
    /// What stands behind the `/` is not a decimal number of at most 255.
    BadPrefix,
    /// The prefix length is a number, but greater than 32.
    PrefixTooLong(u8),
}

/// A CIDR block as a pair of numbers: the base address exactly as it was
/// written, host bits included, and the prefix length.
pub struct Block {
    pub base: u32,
    pub prefix: nat,
}

impl Block {
    /// The prefix length is one an IPv4 block can have.
    pub open spec fn valid(self) -> bool {
        self.prefix <= 32
    }

    /// The number of offsets the host part can take: two to the power of the
    /// number of host bits.
    pub open spec fn span(self) -> nat {
        pow2((32 - self.prefix) as nat)
    }

    /// The offset of the first host. A block with a prefix strictly between 0
    /// and 32 leaves out offset 0, the network address.
    pub open spec fn first_offset(self) -> nat {
        if 0 < self.prefix < 32 {
            1
        } else {
            0
        }
    }

    /// The number of hosts. A block with a prefix strictly between 0 and 32
    /// leaves out its first and its last offset; a whole-space block (prefix
    /// 0) and a single-host block (prefix 32) leave out none.
    pub open spec fn host_count(self) -> nat {
        if 0 < self.prefix < 32 {
            (self.span() - 2) as nat
        } else {
            self.span()
        }
    }

    /// The `index`-th host: the base with the host's offset or-ed into it.
    /// Host bits that are set in the base stay set.
    pub open spec fn host(self, index: nat) -> Ipv4Address {
        Ipv4Address { bits: self.base | ((self.first_offset() + index) as u32) }
    }

    /// All hosts, by ascending offset.
    pub open spec fn hosts(self) -> Seq<Ipv4Address> {
        Seq::new(self.host_count(), |index: int| self.host(index as nat))
    }

    /// The host part of the base address as it was written.
    pub open spec fn host_bits(self) -> nat {
        self.base as nat % self.span()
    }
}

/// Each address of `list` is numerically smaller than the next.
pub open spec fn ascending(list: Seq<Ipv4Address>) -> bool {
    forall|i: int, j: int| 0 <= i < j < list.len() ==> list[i].bits < list[j].bits
}

/// The prefix length that `field` writes: decimal digits, which a single `+`
/// may precede, with a value of at most 255.
pub open spec fn prefix_field(field: Seq<u8>) -> Option<u8> {
    if field.len() > 0 && field[0] == PLUS {
        small_number(field.drop_first())
    } else {
        small_number(field)
    }
}

/// The block that `text` writes as `A.B.C.D/N`, or the reason why it writes none.
pub open spec fn cidr_block(text: Seq<u8>) -> Result<Block, ParseError> {
    let slash = position_of(text, SLASH, 0);
    if slash >= text.len() || position_of(text, SLASH, slash + 1) < text.len() {
        Err(ParseError::Malformed)
    } else {
        match dotted_quad(text.subrange(0, slash)) {
            None => Err(ParseError::BadAddress),
            Some(base) => match prefix_field(text.subrange(slash + 1, text.len() as int)) {
                None => Err(ParseError::BadPrefix),
                Some(prefix) => if prefix > MAX_PREFIX {
                    Err(ParseError::PrefixTooLong(prefix))
                } else {
                    Ok(Block { base: base.bits, prefix: prefix as nat })
                },
            },
        }
    }
}

/// The hosts of the block that `text` writes, or the reason why it writes none.
pub open spec fn expansion(text: Seq<u8>) -> Result<Seq<Ipv4Address>, ParseError> {
    match cidr_block(text) {
        Ok(block) => Ok(block.hosts()),
        Err(reason) => Err(reason),
    }
}

/// The hosts of the block that `text` writes; no hosts where it writes none.
pub open spec fn hosts_or_none(text: Seq<u8>) -> Seq<Ipv4Address> {
    match cidr_block(text) {
        Ok(block) => block.hosts(),
        Err(_) => Seq::empty(),
    }
}

/// A base address with a prefix length of at most 32.
#[derive(Clone, Copy, Debug, PartialEq, Eq)]
pub struct AddressRange {
    base: Ipv4Address,
    prefix: u8,
}

impl View for AddressRange {
    type V = Block;

    closed spec fn view(&self) -> Block {
        Block { base: self.base.bits, prefix: self.prefix as nat }
    }
}

impl AddressRange {
    #[verifier::type_invariant]
    spec fn prefix_fits(self) -> bool {
        self.prefix <= MAX_PREFIX
    }

    /// The block `base/prefix`; `None` when `prefix` is greater than 32.
    pub fn new(base: Ipv4Address, prefix: u8) -> (range: Option<AddressRange>)
        ensures
            prefix > 32 ==> range is None,
            prefix <= 32 ==> range is Some && range->0@ == (Block {
                base: base.bits,
                prefix: prefix as nat,
            }),
    {
        if prefix > MAX_PREFIX {
            None
        } else {
            Some(AddressRange { base, prefix })
        }
    }

    /// The base address, as it was given.
    pub fn base(&self) -> (base: Ipv4Address)
        ensures
            base.bits == self@.base,
    {
        self.base
    }

    /// The prefix length.
    pub fn prefix(&self) -> (prefix: u8)
        ensures
            prefix == self@.prefix,
            prefix <= 32,
            self@.valid(),
    {
        proof {
            use_type_invariant(self);
        }
        self.prefix
    }

    fn span(&self) -> (span: u64)
        ensures
            span == self@.span(),
            1 <= span <= 0x1_0000_0000,
            self@.prefix < 32 ==> span >= 2,
            self@.valid(),
    {
        proof {
            use_type_invariant(self);
        }
        let host_bits: u64 = (MAX_PREFIX - self.prefix) as u64;
        proof {
            lemma2_to64();
            if host_bits < 32 {
                lemma_pow2_strictly_increases(host_bits as nat, 32);
            }
            if host_bits > 0 {
                lemma_pow2_strictly_increases(0, host_bits as nat);
            }
            lemma_u64_shl_is_mul(1, host_bits);
        }
        1u64 << host_bits
    }

    fn first_offset(&self) -> (first: u64)
        ensures
            first == self@.first_offset(),
    {
        if 0 < self.prefix && self.prefix < MAX_PREFIX {
            1
        } else {
            0
        }
    }

    /// The number of hosts in the block. No host has an offset beyond 32 bits.
    pub fn host_count(&self) -> (count: u64)
        ensures
            count == self@.host_count(),
            self@.first_offset() + count <= 0x1_0000_0000,
    {
        let span: u64 = self.span();
        if 0 < self.prefix && self.prefix < MAX_PREFIX {
            span - 2
        } else {
            span
        }
    }

    /// The `index`-th host of the block, counting from 0; `None` from
    /// `host_count()` on.
    pub fn host(&self, index: u64) -> (host: Option<Ipv4Address>)
        ensures
            host == if index < self@.host_count() {
                Some(self@.host(index as nat))
            } else {
                None::<Ipv4Address>
            },
    {
        let count: u64 = self.host_count();
        if index < count {
            let offset: u64 = self.first_offset() + index;
            Some(Ipv4Address::from_bits(self.base.to_bits() | (offset as u32)))
        } else {
            None
        }
    }

    /// All hosts of the block, by ascending offset. The list of a block with
    /// prefix 0 has 2^32 entries and asks for as much memory.
    pub fn hosts(&self) -> (list: Vec<Ipv4Address>)
        ensures
            list@ == self@.hosts(),
    {
        let count: u64 = self.host_count();
        let first: u64 = self.first_offset();
        let base: u32 = self.base.to_bits();
        let mut list: Vec<Ipv4Address> = Vec::new();
        let mut index: u64 = 0;
        while index < count
            invariant
                index <= count,
                count == self@.host_count(),
                first == self@.first_offset(),
                first + count <= 0x1_0000_0000,
                base == self@.base,
                list@.len() == index,
                forall|i: int| 0 <= i < index ==> list@[i] == self@.host(i as nat),
            decreases count - index,
        {
            let offset: u64 = first + index;
            list.push(Ipv4Address::from_bits(base | (offset as u32)));
            index += 1;
        }
        list
    }
}

/// Reads a prefix length field.
pub fn parse_prefix(field: &[u8]) -> (prefix: Option<u8>)
    ensures
        prefix == prefix_field(field@),
{
    let len: usize = field.len();
    if len > 0 && field[0] == PLUS {
        read_small_number(slice_subrange(field, 1, len))
    } else {
        read_small_number(field)
    }
}

/// Reads a block from the bytes of `A.B.C.D/N`.
pub fn parse_cidr_bytes(text: &[u8]) -> (parsed: Result<AddressRange, ParseError>)
    ensures
        match parsed {
            Ok(range) => cidr_block(text@) == Ok::<Block, ParseError>(range@),
            Err(reason) => cidr_block(text@) == Err::<Block, ParseError>(reason),
        },
{
    let len: usize = text.len();
    let slash: usize = find_byte(text, 0, SLASH);
    if slash >= len {
        return Err(ParseError::Malformed);
    }
    if find_byte(text, slash + 1, SLASH) < len {
        return Err(ParseError::Malformed);
    }
    let base = match parse_dotted_quad(slice_subrange(text, 0, slash)) {
        Some(base) => base,
        None => {
            return Err(ParseError::BadAddress);
        },
    };
    let prefix: u8 = match parse_prefix(slice_subrange(text, slash + 1, len)) {
        Some(prefix) => prefix,
        None => {
            return Err(ParseError::BadPrefix);
        },
    };
    if prefix > MAX_PREFIX {
        Err(ParseError::PrefixTooLong(prefix))
    } else {
        Ok(AddressRange { base, prefix })
    }
}

/// Reads a block from text such as `10.0.0.0/30`.
pub fn parse_cidr(text: &str) -> (parsed: Result<AddressRange, ParseError>)
    ensures
        match parsed {
            Ok(range) => cidr_block(text.spec_bytes()) == Ok::<Block, ParseError>(range@),
            Err(reason) => cidr_block(text.spec_bytes()) == Err::<Block, ParseError>(reason),
        },
{
    parse_cidr_bytes(text.as_bytes())
}

/// The hosts of the block that `text` writes, by ascending offset, or the
/// reason why `text` is no block.
pub fn expand(text: &str) -> (expanded: Result<Vec<Ipv4Address>, ParseError>)
    ensures
        match expanded {
            Ok(list) => expansion(text.spec_bytes()) == Ok::<Seq<Ipv4Address>, ParseError>(list@),
            Err(reason) => expansion(text.spec_bytes()) == Err::<Seq<Ipv4Address>, ParseError>(
                reason,
            ),
        },
{
    match parse_cidr(text) {
        Ok(range) => Ok(range.hosts()),
        Err(reason) => Err(reason),
    }
}

/// The hosts of the block that `text` writes, and an empty list where `text`
/// is no block: a bad range scans nothing, it does not stop the run.
pub fn cidr_to_ips(text: &str) -> (list: Vec<Ipv4Address>)
    ensures
        list@ == hosts_or_none(text.spec_bytes()),
        cidr_block(text.spec_bytes()) is Err ==> list@.len() == 0,
{
    match expand(text) {
        Ok(list) => list,
        Err(_) => Vec::new(),
    }
}

/// The text of an address, a `/` and the decimal text of a prefix of at most
/// 32 writes the block of that address and that prefix.
pub proof fn cidr_text_reads_back(address: Ipv4Address, prefix: u8)
    requires
        prefix <= 32,
    ensures
        cidr_block(dotted_quad_text(address) + seq![SLASH] + decimal_text(prefix as nat)) == Ok::<
            Block,
            ParseError,
        >(Block { base: address.bits, prefix: prefix as nat }),
{
    let quad = dotted_quad_text(address);
    let mask = decimal_text(prefix as nat);
    let text = quad + seq![SLASH] + mask;
    let slash = quad.len() as int;
    dotted_quad_text_bytes(address);
    dotted_quad_text_reads_back(address);
    decimal_text_reads_back(prefix);
    assert forall|k: int| 0 <= k < slash implies text[k] != SLASH by {
        assert(text[k] == quad[k]);
    }
    position_of_found(text, SLASH, 0, slash);
    assert(position_of(text, SLASH, slash + 1) == text.len()) by {
        no_byte_from(text, SLASH, slash + 1);
    }
    assert(text.subrange(0, slash) =~= quad);
    assert(text.subrange(slash + 1, text.len() as int) =~= mask);
}

/// Only a text with a prefix of at most 32 writes a block, and a text that
/// writes no block has no hosts.
pub proof fn no_block_no_hosts(text: Seq<u8>)
    ensures
        cidr_block(text) matches Ok(block) ==> block.valid() && hosts_or_none(text)
            == block.hosts(),
        cidr_block(text) is Err ==> hosts_or_none(text) == Seq::<Ipv4Address>::empty(),
{
}

/// A block with a prefix strictly between 0 and 32 has `2^(32-N) - 2` hosts:
/// one for every offset but the first, whose host bits are all zero, and the
/// last, whose host bits are all one. Each host is the base with its offset
/// or-ed in, and the hosts stand by ascending offset.
pub proof fn inner_block_hosts(block: Block)
    requires
        0 < block.prefix < 32,
    ensures
        block.span() >= 2,
        block.hosts().len() == pow2((32 - block.prefix) as nat) - 2,
        forall|k: int|
            0 <= k < block.hosts().len() ==> (#[trigger] block.hosts()[k]).bits == block.base | ((k
                + 1) as u32) && 0 < k + 1 < block.span() - 1,
{
    lemma_pow2_strictly_increases(0, (32 - block.prefix) as nat);
    lemma2_to64();
}

/// The hosts of a block with a prefix strictly between 0 and 32 ascend
/// numerically exactly when the block has fewer than two hosts, or the base
/// was written without host bits, or the block is a /30 whose base ends in
/// the bits 01. On any other base two offsets give addresses out of order.
pub proof fn inner_block_ascends_exactly_when(block: Block)
    requires
        0 < block.prefix < 32,
    ensures
        ascending(block.hosts()) <==> (block.prefix == 31 || block.host_bits() == 0 || (
        block.prefix == 30 && block.host_bits() == 1)),
{
    let shift: u32 = (32 - block.prefix) as u32;
    let span: u32 = 1u32 << shift;
    let base: u32 = block.base;
    let hosts = block.hosts();
    lemma2_to64();
    lemma_pow2_strictly_increases(0, shift as nat);
    lemma_pow2_strictly_increases(shift as nat, 32);
    lemma_u32_shl_is_mul(1, shift);
    let low: u32 = base % span;
    assert(low == base & ((1u32 << shift) - 1) as u32) by {
        lemma_u32_low_bits_mask_is_mod(base, shift as nat);
    }
    if block.prefix == 31 {
        // No hosts, nothing to compare.
    } else if low == 0 {
        assert forall|i: int, j: int| 0 <= i < j < hosts.len() implies hosts[i].bits
            < hosts[j].bits by {
            let a: u32 = (i + 1) as u32;
            let b: u32 = (j + 1) as u32;
            assert((base | a) < (base | b)) by (bit_vector)
                requires
                    0 < shift < 32,
                    base & ((1u32 << shift) - 1) as u32 == 0,
                    a < b,
                    b < (1u32 << shift),
            ;
        }
    } else if block.prefix == 30 && low == 1 {
        // Two hosts, with offsets 1 and 2.
        assert((base | 1u32) < (base | 2u32)) by (bit_vector)
            requires
                base & 3u32 == 1,
        ;
    } else {
        // Two neighbouring offsets, `below` and `above`, whose addresses are
        // out of order.
        assert(span >= 4) by {
            lemma_pow2_strictly_increases(1, shift as nat);
        }
        let below: u32 = if low == 1 {
            2
        } else if low == span - 1 {
            1
        } else {
            (low - 1) as u32
        };
        let above: u32 = (below + 1) as u32;
        if low == 1 {
            assert(span >= 8) by {
                if shift > 2 {
                    lemma_pow2_strictly_increases(2, shift as nat);
                }
            }
            assert((base | 2u32) == (base | 3u32)) by (bit_vector)
                requires
                    0 < shift < 32,
                    base & ((1u32 << shift) - 1) as u32 == 1,
            ;
        } else if low == span - 1 {
            assert((base | 1u32) == (base | 2u32)) by (bit_vector)
                requires
                    1 < shift < 32,
                    base & ((1u32 << shift) - 1) as u32 == ((1u32 << shift) - 1) as u32,
            ;
        } else {
            let mask: u32 = (span - 1) as u32;
            assert((base | (base & mask)) == base) by (bit_vector);
            assert((base | below) >= base) by (bit_vector);
        }
        let i: int = below - 1;
        let j: int = above - 1;
        assert(hosts[i].bits == base | below);
        assert(hosts[j].bits == base | above);
    }
}

/// A block with prefix 32 has exactly one host, the base address itself.
pub proof fn single_host_block(block: Block)
    requires
        block.prefix == 32,
    ensures
        block.hosts() == seq![Ipv4Address { bits: block.base }],
{
    lemma2_to64();
    let base: u32 = block.base;
    assert(base | 0u32 == base) by (bit_vector);
}

/// A block with prefix 0 has 2^32 hosts and leaves out neither end: its
/// first host has offset 0 and its last the greatest offset there is.
pub proof fn whole_space_block(block: Block)
    requires
        block.prefix == 0,
    ensures
        block.hosts().len() == 0x1_0000_0000,
        forall|k: int|
            0 <= k < 0x1_0000_0000 ==> (#[trigger] block.hosts()[k]).bits == block.base | (
            k as u32),
        block.hosts().first().bits == block.base,
        block.hosts().last().bits == 0xffff_ffffu32,
{
    lemma2_to64();
    let base: u32 = block.base;
    assert(base | 0u32 == base) by (bit_vector);
    assert(base | 0xffff_ffffu32 == 0xffff_ffffu32) by (bit_vector);
}

/// What `expand` returns is fixed by the text alone: two runs on the same
/// text give the same list, or the same reason.
pub proof fn expansion_repeats(
    text: Seq<u8>,
    first: Result<Seq<Ipv4Address>, ParseError>,
    second: Result<Seq<Ipv4Address>, ParseError>,
)
    requires
        first == expansion(text),
        second == expansion(text),
    ensures
        first == second,
{
}

} // verus!
