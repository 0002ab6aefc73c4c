//! In-memory register bank for one device.
//!
//! Holding and input registers are typed cells keyed by the PDU address of
//! their first word; a `uint32` or `float32` cell at `N` also answers for
//! address `N + 1`. Coils and discrete inputs are plain bits.

use vstd::prelude::*;
use std::collections::BTreeMap;

use crate::encode::{
    CellValue, cell_of_words, cell_words, decode_words, encode_words, lemma_decode_encode,
    lemma_encode_decode,
};
use crate::types::{DataType, Endianness, RegisterSpace};
use vstd::std_specs::iter::IteratorSpec;

verus! {

/// Point-in-time copy of all register words and bits.
#[derive(Debug, Clone, PartialEq)]
pub struct Snapshot {
    /// Holding words keyed by address.
    pub holding: BTreeMap<u16, u16>,
    /// Input words keyed by address.
    pub input: BTreeMap<u16, u16>,
    /// Coil bits.
    pub coils: BTreeMap<u16, bool>,
    /// Discrete bits.
    pub discrete: BTreeMap<u16, bool>,
}

/// A numeric register: its typed value and the scale it was declared with.
#[derive(Debug, Clone, Copy, PartialEq, Eq, Structural)]
pub struct NumericCell {
    /// Current typed value.
    pub value: CellValue,
    /// `raw ≈ real × scale`.
    pub scale: u32,
}

/// Packed register map for one device.
#[derive(Debug, Clone)]
pub struct RegisterBank {
    endianness: Endianness,
    holding: BTreeMap<u16, NumericCell>,
    input: BTreeMap<u16, NumericCell>,
    coils: BTreeMap<u16, bool>,
    discrete: BTreeMap<u16, bool>,
}

/// The cell that owns a PDU address, and the word offset inside it.
///
/// An exact base wins; otherwise a two-word cell that starts one address
/// lower owns its second word.
pub open spec fn owner_of(m: Map<u16, NumericCell>, a: u16) -> Option<(u16, int)> {
    if m.contains_key(a) {
        Some((a, 0))
    } else if a > 0 && m.contains_key((a - 1) as u16) && m[(a - 1) as u16].value.kind().words()
        == 2 {
        Some(((a - 1) as u16, 1))
    } else {
        None
    }
}

/// Whether the write at index `i` of a run from `address` lands in the cell based at `b`.
pub open spec fn lands_in(m: Map<u16, NumericCell>, address: u16, i: int, b: u16) -> bool {
    match owner_of(m, (address + i) as u16) {
        Some((ob, _)) => ob == b,
        None => false,
    }
}

/// Whether an address is an implemented 16-bit register.
pub open spec fn covers(m: Map<u16, NumericCell>, a: u16) -> bool {
    owner_of(m, a) is Some
}

/// The word a poller sees at an address, if any cell shows one there.
///
/// A two-word cell based at the last address shows its second word there,
/// since its second word has no higher address to go to.
pub open spec fn word_in(m: Map<u16, NumericCell>, e: Endianness, a: u16) -> Option<u16> {
    if m.contains_key(a) {
        let ws = cell_words(m[a].value, e);
        if a == 65535 && ws.len() == 2 {
            Some(ws[1])
        } else {
            Some(ws[0])
        }
    } else if a > 0 && m.contains_key((a - 1) as u16) && m[(a - 1) as u16].value.kind().words()
        == 2 {
        Some(cell_words(m[(a - 1) as u16].value, e)[1])
    } else {
        None
    }
}

/// All the words a poller sees, keyed by address.
pub open spec fn word_map(m: Map<u16, NumericCell>, e: Endianness) -> Map<u16, u16> {
    Map::new(|a: u16| word_in(m, e, a) is Some, |a: u16| word_in(m, e, a).unwrap())
}

/// Replace word `k` of a cell and decode the result as the same type.
pub open spec fn splice(cell: CellValue, k: int, w: u16, e: Endianness) -> CellValue {
    cell_of_words(cell_words(cell, e).update(k, w), cell.kind(), e)
}

/// One 16-bit write at a PDU address, spliced into its owning cell.
pub open spec fn write_one(m: Map<u16, NumericCell>, e: Endianness, a: u16, w: u16) -> Map<
    u16,
    NumericCell,
> {
    match owner_of(m, a) {
        Some((b, k)) => m.insert(
            b,
            NumericCell { value: splice(m[b].value, k, w, e), scale: m[b].scale },
        ),
        None => m,
    }
}

/// The first `n` words of `ws` written at consecutive addresses from `address`.
pub open spec fn write_prefix(
    m: Map<u16, NumericCell>,
    e: Endianness,
    address: u16,
    ws: Seq<u16>,
    n: nat,
) -> Map<u16, NumericCell>
    decreases n,
{
    if n == 0 {
        m
    } else {
        write_one(write_prefix(m, e, address, ws, (n - 1) as nat), e, (address + n - 1) as u16, ws[n - 1])
    }
}

/// Whether index `i` of a run starting at `address` fails: the address
/// overflows, or nothing is there.
pub open spec fn word_gap(m: Map<u16, NumericCell>, address: u16, i: int) -> bool {
    address + i > 65535 || !covers(m, (address + i) as u16)
}

/// Whether index `i` of a run of bits starting at `address` fails.
pub open spec fn bit_gap(m: Map<u16, bool>, address: u16, i: int) -> bool {
    address + i > 65535 || !m.contains_key((address + i) as u16)
}

/// The address reported for a failing index: the address itself, or the
/// start of the run when the index overflows.
pub open spec fn gap_address(address: u16, i: int) -> u16 {
    if address + i > 65535 {
        address
    } else {
        (address + i) as u16
    }
}

/// The outcome of checking a run of `count` registers: success, or the
/// address of the first gap (the start when `count` is zero).
pub open spec fn word_range_result(m: Map<u16, NumericCell>, address: u16, count: int) -> Result<
    (),
    u16,
> {
    if count == 0 {
        Err(address)
    } else if forall|i: int| 0 <= i < count ==> !word_gap(m, address, i) {
        Ok(())
    } else {
        let i = choose|i: int|
            0 <= i < count && word_gap(m, address, i) && forall|j: int|
                0 <= j < i ==> !word_gap(m, address, j);
        Err(gap_address(address, i))
    }
}

/// The outcome of checking a run of `count` bits.
pub open spec fn bit_range_result(m: Map<u16, bool>, address: u16, count: int) -> Result<(), u16> {
    if count == 0 {
        Err(address)
    } else if forall|i: int| 0 <= i < count ==> !bit_gap(m, address, i) {
        Ok(())
    } else {
        let i = choose|i: int|
            0 <= i < count && bit_gap(m, address, i) && forall|j: int|
                0 <= j < i ==> !bit_gap(m, address, j);
        Err(gap_address(address, i))
    }
}

/// The bit a reader sees at an address (absent bits read as `false`).
pub open spec fn bit_in(m: Map<u16, bool>, a: u16) -> bool {
    m.contains_key(a) && m[a]
}

/// Address `address + i`, saturated at the last address.
pub open spec fn sat_addr(address: u16, i: int) -> u16 {
    if address + i > 65535 {
        65535
    } else {
        (address + i) as u16
    }
}

/// The words a poller sees for `count` addresses from `address`; addresses
/// with no register, or past the last address, read as zero.
pub open spec fn word_run(m: Map<u16, NumericCell>, e: Endianness, address: u16, count: int) -> Seq<
    u16,
> {
    Seq::new(
        count as nat,
        |i: int|
            if address + i <= 65535 {
                match word_in(m, e, (address + i) as u16) {
                    Some(w) => w,
                    None => 0u16,
                }
            } else {
                0u16
            },
    )
}

/// The bits a reader sees for `count` addresses from `address`, saturating
/// at the last address.
pub open spec fn bit_run(m: Map<u16, bool>, address: u16, count: int) -> Seq<bool> {
    Seq::new(count as nat, |i: int| bit_in(m, sat_addr(address, i)))
}

/// The first `n` bits of `vs` set at addresses `address + (i mod 2^16)`.
pub open spec fn set_bits_prefix(m: Map<u16, bool>, address: u16, vs: Seq<bool>, n: nat) -> Map<
    u16,
    bool,
>
    decreases n,
{
    if n == 0 {
        m
    } else {
        let prev = set_bits_prefix(m, address, vs, (n - 1) as nat);
        prev.insert((address + ((n - 1) % 65536)) as u16, vs[n - 1])
    }
}

/// Whether index `i` of a coil write fails (address arithmetic on `i mod 2^16`).
pub open spec fn coil_write_gap(m: Map<u16, bool>, address: u16, i: int) -> bool {
    bit_gap(m, address, i % 65536)
}

/// The outcome of a coil write of `n` bits: the start when there are none,
/// the first failing address, or success.
pub open spec fn coil_write_result(m: Map<u16, bool>, address: u16, n: int) -> Result<(), u16> {
    if n == 0 {
        Err(address)
    } else if forall|i: int| 0 <= i < n ==> !coil_write_gap(m, address, i) {
        Ok(())
    } else {
        let i = choose|i: int|
            0 <= i < n && coil_write_gap(m, address, i) && forall|j: int|
                0 <= j < i ==> !coil_write_gap(m, address, j);
        Err(gap_address(address, i % 65536))
    }
}

/// Map domain covered by the keys in `ks`: each key, plus the second
/// address of each two-word cell among them.
pub open spec fn shown_by(m: Map<u16, NumericCell>, ks: Seq<u16>, a: u16) -> bool {
    exists|j: int|
        0 <= j < ks.len() && (ks[j] == a || (ks[j] + 1 == a && m[ks[j]].value.kind().words() == 2
            && !m.contains_key(a)))
}

impl RegisterBank {
    /// Multi-word byte order.
    pub closed spec fn endian(self) -> Endianness {
        self.endianness
    }

    /// Numeric cells of one space, keyed by base address.
    pub closed spec fn cells(self, space: RegisterSpace) -> Map<u16, NumericCell> {
        match space {
            RegisterSpace::Holding => self.holding@,
            RegisterSpace::Input => self.input@,
        }
    }

    /// Coil bits.
    pub closed spec fn coil_bits(self) -> Map<u16, bool> {
        self.coils@
    }

    /// Discrete-input bits.
    pub closed spec fn discrete_bits(self) -> Map<u16, bool> {
        self.discrete@
    }

    /// An empty bank.
    pub fn new(endianness: Endianness) -> (bank: Self)
        ensures
            bank.endian() == endianness,
            bank.cells(RegisterSpace::Holding) == Map::<u16, NumericCell>::empty(),
            bank.cells(RegisterSpace::Input) == Map::<u16, NumericCell>::empty(),
            bank.coil_bits() == Map::<u16, bool>::empty(),
            bank.discrete_bits() == Map::<u16, bool>::empty(),
    {
        RegisterBank {
            endianness,
            holding: BTreeMap::new(),
            input: BTreeMap::new(),
            coils: BTreeMap::new(),
            discrete: BTreeMap::new(),
        }
    }

    /// Empty every table and adopt `endianness`.
    pub fn clear(&mut self, endianness: Endianness)
        ensures
            final(self).endian() == endianness,
            final(self).cells(RegisterSpace::Holding) == Map::<u16, NumericCell>::empty(),
            final(self).cells(RegisterSpace::Input) == Map::<u16, NumericCell>::empty(),
            final(self).coil_bits() == Map::<u16, bool>::empty(),
            final(self).discrete_bits() == Map::<u16, bool>::empty(),
    {
        self.endianness = endianness;
        self.holding.clear();
        self.input.clear();
        self.coils.clear();
        self.discrete.clear();
    }

    /// Declare (or redeclare) a numeric register with its initial value.
    pub fn insert_numeric(&mut self, space: RegisterSpace, address: u16, value: CellValue, scale: u32)
        ensures
            final(self).cells(space) == old(self).cells(space).insert(
                address,
                NumericCell { value, scale },
            ),
            forall|s: RegisterSpace| s != space ==> final(self).cells(s) == old(self).cells(s),
            final(self).endian() == old(self).endian(),
            final(self).coil_bits() == old(self).coil_bits(),
            final(self).discrete_bits() == old(self).discrete_bits(),
    {
        match space {
            RegisterSpace::Holding => {
                self.holding.insert(address, NumericCell { value, scale });
            },
            RegisterSpace::Input => {
                self.input.insert(address, NumericCell { value, scale });
            },
        }
    }

    /// Declare (or redeclare) a coil with its initial state.
    pub fn insert_coil(&mut self, address: u16, value: bool)
        ensures
            final(self).coil_bits() == old(self).coil_bits().insert(address, value),
            forall|s: RegisterSpace| final(self).cells(s) == old(self).cells(s),
            final(self).endian() == old(self).endian(),
            final(self).discrete_bits() == old(self).discrete_bits(),
    {
        self.coils.insert(address, value);
    }

    /// Declare (or redeclare) a discrete input with its initial state.
    pub fn insert_discrete(&mut self, address: u16, value: bool)
        ensures
            final(self).discrete_bits() == old(self).discrete_bits().insert(address, value),
            forall|s: RegisterSpace| final(self).cells(s) == old(self).cells(s),
            final(self).endian() == old(self).endian(),
            final(self).coil_bits() == old(self).coil_bits(),
    {
        self.discrete.insert(address, value);
    }

    fn map(&self, space: RegisterSpace) -> (m: &BTreeMap<u16, NumericCell>)
        ensures
            m@ == self.cells(space),
    {
        match space {
            RegisterSpace::Holding => &self.holding,
            RegisterSpace::Input => &self.input,
        }
    }

    fn put(&mut self, space: RegisterSpace, address: u16, cell: NumericCell)
        ensures
            final(self).cells(space) == old(self).cells(space).insert(address, cell),
            forall|s: RegisterSpace| s != space ==> final(self).cells(s) == old(self).cells(s),
            final(self).endian() == old(self).endian(),
            final(self).coil_bits() == old(self).coil_bits(),
            final(self).discrete_bits() == old(self).discrete_bits(),
    {
        match space {
            RegisterSpace::Holding => {
                self.holding.insert(address, cell);
            },
            RegisterSpace::Input => {
                self.input.insert(address, cell);
            },
        }
    }

    /// Write a typed cell; an address with no register is left alone.
    pub fn set_cell(&mut self, space: RegisterSpace, address: u16, value: CellValue)
        ensures
            final(self).cells(space) == if old(self).cells(space).contains_key(address) {
                old(self).cells(space).insert(
                    address,
                    NumericCell { value, scale: old(self).cells(space)[address].scale },
                )
            } else {
                old(self).cells(space)
            },
            forall|s: RegisterSpace| s != space ==> final(self).cells(s) == old(self).cells(s),
            final(self).endian() == old(self).endian(),
            final(self).coil_bits() == old(self).coil_bits(),
            final(self).discrete_bits() == old(self).discrete_bits(),
    {
        let found = match self.map(space).get(&address) {
            Some(c) => Some(*c),
            None => None,
        };
        if let Some(c) = found {
            self.put(space, address, NumericCell { value, scale: c.scale });
        }
    }

    /// Read a typed cell.
    pub fn get_cell(&self, space: RegisterSpace, address: u16) -> (r: Option<CellValue>)
        ensures
            r == if self.cells(space).contains_key(address) {
                Some(self.cells(space)[address].value)
            } else {
                None::<CellValue>
            },
    {
        match self.map(space).get(&address) {
            Some(c) => Some(c.value),
            None => None,
        }
    }

    /// Scale factor for a numeric register.
    pub fn scale(&self, space: RegisterSpace, address: u16) -> (r: Option<u32>)
        ensures
            r == if self.cells(space).contains_key(address) {
                Some(self.cells(space)[address].scale)
            } else {
                None::<u32>
            },
    {
        match self.map(space).get(&address) {
            Some(c) => Some(c.scale),
            None => None,
        }
    }

    /// Owning cell base and word offset for a PDU address.
    ///
    /// A `float32`/`uint32` at `N` occupies PDU addresses `N` and `N+1`.
    fn owner(&self, space: RegisterSpace, address: u16) -> (r: Option<(u16, usize)>)
        ensures
            match owner_of(self.cells(space), address) {
                Some((b, k)) => r == Some((b, k as usize)),
                None => r is None,
            },
    {
        let map = self.map(space);
        if map.contains_key(&address) {
            return Some((address, 0));
        }
        if address == 0 {
            return None;
        }
        let prev = address - 1;
        match map.get(&prev) {
            Some(cell) => {
                if cell.value.data_type().word_count() == 2 {
                    Some((prev, 1))
                } else {
                    None
                }
            },
            None => None,
        }
    }

    /// Whether PDU address `address` is an implemented 16-bit register.
    pub fn covers_word(&self, space: RegisterSpace, address: u16) -> (b: bool)
        ensures
            b == covers(self.cells(space), address),
    {
        self.owner(space, address).is_some()
    }

    /// Every register from `address` for `count` words must be implemented.
    ///
    /// `Err` carries the first missing address (or `address` itself when the
    /// run is empty or runs past the last address).
    pub fn check_word_range(&self, space: RegisterSpace, address: u16, count: u16) -> (r: Result<
        (),
        u16,
    >)
        ensures
            r == word_range_result(self.cells(space), address, count as int),
    {
        let ghost m = self.cells(space);
        if count == 0 {
            return Err(address);
        }
        let mut i: u16 = 0;
        while i < count
            invariant
                0 <= i <= count,
                m == self.cells(space),
                forall|j: int| 0 <= j < i ==> !word_gap(m, address, j),
            decreases count - i,
        {
            let addr = match address.checked_add(i) {
                Some(a) => a,
                None => {
                    proof {
                        assert(word_gap(m, address, i as int));
                        lemma_first_word_gap(m, address, count as int, i as int);
                    }
                    return Err(address);
                },
            };
            if !self.covers_word(space, addr) {
                proof {
                    assert(word_gap(m, address, i as int));
                    lemma_first_word_gap(m, address, count as int, i as int);
                }
                return Err(addr);
            }
            i = i + 1;
        }
        Ok(())
    }

    /// Write 16-bit words (FC6/FC16). Each PDU address is an independent word.
    ///
    /// The whole range is validated first (no partial apply), then each word
    /// is spliced into its owning cell. `Ok` lists every base that was written.
    pub fn write_words(&mut self, space: RegisterSpace, address: u16, words: &[u16]) -> (r: Result<
        Vec<u16>,
        u16,
    >)
        ensures
            words@.len() > 65535 ==> r == Err::<Vec<u16>, u16>(address) && *final(self) == *old(self),
            words@.len() <= 65535 ==> match word_range_result(
                old(self).cells(space),
                address,
                words@.len() as int,
            ) {
                Err(e) => r == Err::<Vec<u16>, u16>(e) && *final(self) == *old(self),
                Ok(_) => r is Ok && final(self).cells(space) == write_prefix(
                    old(self).cells(space),
                    old(self).endian(),
                    address,
                    words@,
                    words@.len(),
                ),
            },
            r matches Ok(written) ==> {
                &&& written@.no_duplicates()
                &&& forall|b: u16|
                    written@.contains(b) <==> exists|i: int|
                        0 <= i < words@.len() && #[trigger] lands_in(old(self).cells(space), address, i, b)
            },
            forall|s: RegisterSpace| s != space ==> final(self).cells(s) == old(self).cells(s),
            final(self).endian() == old(self).endian(),
            final(self).coil_bits() == old(self).coil_bits(),
            final(self).discrete_bits() == old(self).discrete_bits(),
    {
        if words.len() > 65535 {
            return Err(address);
        }
        let count = words.len() as u16;
        self.check_word_range(space, address, count)?;
        let ghost m0 = self.cells(space);
        let endianness = self.endianness;
        let mut written: Vec<u16> = Vec::new();
        let mut i: usize = 0;
        while i < words.len()
            invariant
                0 <= i <= words@.len(),
                words@.len() == count,
                forall|j: int| 0 <= j < count ==> !word_gap(m0, address, j),
                endianness == self.endian(),
                self.cells(space) == write_prefix(m0, endianness, address, words@, i as nat),
                forall|s: RegisterSpace| s != space ==> self.cells(s) == old(self).cells(s),
                self.endian() == old(self).endian(),
                self.coil_bits() == old(self).coil_bits(),
                self.discrete_bits() == old(self).discrete_bits(),
                m0 == old(self).cells(space),
                written@.no_duplicates(),
                forall|b: u16|
                    written@.contains(b) <==> exists|j: int|
                        0 <= j < i && #[trigger] lands_in(m0, address, j, b),
            decreases words@.len() - i,
        {
            proof {
                assert(!word_gap(m0, address, i as int));
            }
            let addr = address + i as u16;
            proof {
                lemma_write_prefix_keeps_owners(m0, endianness, address, words@, i as nat, addr);
            }
            let ghost prev = self.cells(space);
            let (base, offset) = match self.owner(space, addr) {
                Some(o) => o,
                None => {
                    assert(false);
                    return Err(addr);
                },
            };
            let cell = match self.map(space).get(&base) {
                Some(c) => *c,
                None => {
                    assert(false);
                    return Err(addr);
                },
            };
            let data_type = cell.value.data_type();
            let mut encoded = encode_words(cell.value, endianness);
            encoded.set(offset, words[i]);
            let decoded = decode_words(encoded.as_slice(), data_type, endianness);
            proof {
                assert(owner_of(prev, addr) == Some((base, offset as int)));
                assert(cell == prev[base]);
                assert(encoded@ == cell_words(cell.value, endianness).update(offset as int, words@[i as int]));
                assert(decoded == splice(prev[base].value, offset as int, words@[i as int], endianness));
                assert(write_prefix(m0, endianness, address, words@, (i + 1) as nat) == write_one(
                    prev, endianness, addr, words@[i as int]));
            }
            self.put(space, base, NumericCell { value: decoded, scale: cell.scale });
            let mut seen = false;
            let mut j: usize = 0;
            while j < written.len()
                invariant
                    0 <= j <= written@.len(),
                    seen == exists|k: int| 0 <= k < j && written@[k] == base,
                decreases written@.len() - j,
            {
                if written[j] == base {
                    seen = true;
                }
                j = j + 1;
            }
            let ghost old_written = written@;
            if !seen {
                written.push(base);
            }
            proof {
                assert(self.cells(space) =~= write_prefix(
                    m0,
                    endianness,
                    address,
                    words@,
                    (i + 1) as nat,
                ));
                assert(lands_in(m0, address, i as int, base));
                assert(seen == old_written.contains(base));
                if !seen {
                    assert(written@ == old_written.push(base));
                } else {
                    assert(written@ == old_written);
                }
                assert forall|b: u16| #[trigger] written@.contains(b) implies old_written.contains(b) || b == base by {
                    let k = choose|k: int| 0 <= k < written@.len() && written@[k] == b;
                    if k < old_written.len() {
                        assert(old_written[k] == b);
                    }
                }
                assert(written@.contains(base)) by {
                    if !seen {
                        assert(written@[old_written.len() as int] == base);
                    }
                }
                assert forall|b: u16| #[trigger] old_written.contains(b) implies written@.contains(b) by {
                    let k = choose|k: int| 0 <= k < old_written.len() && old_written[k] == b;
                    assert(written@[k] == b);
                }
                assert forall|b: u16|
                    written@.contains(b) <==> exists|j: int|
                        0 <= j < i + 1 && #[trigger] lands_in(m0, address, j, b) by {
                    if written@.contains(b) {
                        if old_written.contains(b) {
                            let j = choose|j: int|
                                0 <= j < i && #[trigger] lands_in(m0, address, j, b);
                            assert(0 <= j < i + 1 && lands_in(m0, address, j, b));
                        } else {
                            assert(b == base);
                            assert(0 <= i < i + 1 && lands_in(m0, address, i as int, b));
                        }
                    }
                    if exists|j: int| 0 <= j < i + 1 && #[trigger] lands_in(m0, address, j, b) {
                        let j = choose|j: int| 0 <= j < i + 1 && #[trigger] lands_in(m0, address, j, b);
                        if j < i {
                            assert(old_written.contains(b));
                        } else {
                            assert(b == base);
                        }
                    }
                }
            }
            i = i + 1;
        }
        Ok(written)
    }

    /// Read `count` 16-bit words starting at `address`.
    ///
    /// Addresses with no register, or past the last address, read as zero.
    pub fn read_words(&self, space: RegisterSpace, address: u16, count: u16) -> (out: Vec<u16>)
        ensures
            out@ == word_run(self.cells(space), self.endian(), address, count as int),
            out@.len() == count,
            forall|i: int|
                0 <= i < count ==> #[trigger] out@[i] == if address + i <= 65535 {
                    match word_in(self.cells(space), self.endian(), (address + i) as u16) {
                        Some(w) => w,
                        None => 0u16,
                    }
                } else {
                    0u16
                },
    {
        let mut out: Vec<u16> = Vec::new();
        let mut i: u16 = 0;
        let ghost e = self.endian();
        while i < count
            invariant
                0 <= i <= count,
                out@.len() == i,
                forall|j: int|
                    0 <= j < i ==> #[trigger] out@[j] == if address + j <= 65535 {
                        match word_in(self.cells(space), self.endian(), (address + j) as u16) {
                            Some(w) => w,
                            None => 0u16,
                        }
                    } else {
                        0u16
                    },
            decreases count - i,
        {
            let w = match address.checked_add(i) {
                Some(a) => match self.word_at(space, a) {
                    Some(w) => w,
                    None => 0,
                },
                None => 0,
            };
            out.push(w);
            i = i + 1;
        }
        assert(out@ =~= word_run(self.cells(space), e, address, count as int));
        out
    }

    /// The word a poller sees at one address.
    fn word_at(&self, space: RegisterSpace, a: u16) -> (r: Option<u16>)
        ensures
            r == word_in(self.cells(space), self.endian(), a),
    {
        let map = self.map(space);
        match map.get(&a) {
            Some(cell) => {
                let ws = encode_words(cell.value, self.endianness);
                if a == 65535 && ws.len() == 2 {
                    Some(ws[1])
                } else {
                    Some(ws[0])
                }
            },
            None => {
                if a == 0 {
                    return None;
                }
                match map.get(&(a - 1)) {
                    Some(prev) => {
                        if prev.value.data_type().word_count() == 2 {
                            let ws = encode_words(prev.value, self.endianness);
                            Some(ws[1])
                        } else {
                            None
                        }
                    },
                    None => None,
                }
            },
        }
    }

    /// Coil getter; an absent coil reads `false`.
    pub fn get_coil(&self, address: u16) -> (b: bool)
        ensures
            b == bit_in(self.coil_bits(), address),
    {
        match self.coils.get(&address) {
            Some(v) => *v,
            None => false,
        }
    }

    /// Coil setter; an absent coil is left absent.
    pub fn set_coil(&mut self, address: u16, value: bool)
        ensures
            final(self).coil_bits() == if old(self).coil_bits().contains_key(address) {
                old(self).coil_bits().insert(address, value)
            } else {
                old(self).coil_bits()
            },
            forall|s: RegisterSpace| final(self).cells(s) == old(self).cells(s),
            final(self).endian() == old(self).endian(),
            final(self).discrete_bits() == old(self).discrete_bits(),
    {
        if self.coils.contains_key(&address) {
            self.coils.insert(address, value);
        }
    }

    /// Discrete getter; an absent input reads `false`.
    pub fn get_discrete(&self, address: u16) -> (b: bool)
        ensures
            b == bit_in(self.discrete_bits(), address),
    {
        match self.discrete.get(&address) {
            Some(v) => *v,
            None => false,
        }
    }

    /// Discrete setter; an absent input is left absent.
    pub fn set_discrete(&mut self, address: u16, value: bool)
        ensures
            final(self).discrete_bits() == if old(self).discrete_bits().contains_key(address) {
                old(self).discrete_bits().insert(address, value)
            } else {
                old(self).discrete_bits()
            },
            forall|s: RegisterSpace| final(self).cells(s) == old(self).cells(s),
            final(self).endian() == old(self).endian(),
            final(self).coil_bits() == old(self).coil_bits(),
    {
        if self.discrete.contains_key(&address) {
            self.discrete.insert(address, value);
        }
    }

    /// Whether a coil address exists.
    pub fn has_coil(&self, address: u16) -> (b: bool)
        ensures
            b == self.coil_bits().contains_key(address),
    {
        self.coils.contains_key(&address)
    }

    /// Whether a discrete address exists.
    pub fn has_discrete(&self, address: u16) -> (b: bool)
        ensures
            b == self.discrete_bits().contains_key(address),
    {
        self.discrete.contains_key(&address)
    }

    fn check_bit_range(present: &BTreeMap<u16, bool>, address: u16, count: u16) -> (r: Result<
        (),
        u16,
    >)
        ensures
            r == bit_range_result(present@, address, count as int),
    {
        let ghost m = present@;
        if count == 0 {
            return Err(address);
        }
        let mut i: u16 = 0;
        while i < count
            invariant
                0 <= i <= count,
                m == present@,
                forall|j: int| 0 <= j < i ==> !bit_gap(m, address, j),
            decreases count - i,
        {
            let addr = match address.checked_add(i) {
                Some(a) => a,
                None => {
                    proof {
                        lemma_first_bit_gap(m, address, count as int, i as int);
                    }
                    return Err(address);
                },
            };
            if !present.contains_key(&addr) {
                proof {
                    lemma_first_bit_gap(m, address, count as int, i as int);
                }
                return Err(addr);
            }
            i = i + 1;
        }
        Ok(())
    }

    /// Every coil from `address` for `count` bits must exist.
    pub fn check_coil_range(&self, address: u16, count: u16) -> (r: Result<(), u16>)
        ensures
            r == bit_range_result(self.coil_bits(), address, count as int),
    {
        Self::check_bit_range(&self.coils, address, count)
    }

    /// Every discrete input from `address` for `count` bits must exist.
    pub fn check_discrete_range(&self, address: u16, count: u16) -> (r: Result<(), u16>)
        ensures
            r == bit_range_result(self.discrete_bits(), address, count as int),
    {
        Self::check_bit_range(&self.discrete, address, count)
    }

    /// Read `count` coils; addresses saturate at the last address.
    pub fn read_coils(&self, address: u16, count: u16) -> (out: Vec<bool>)
        ensures
            out@ == bit_run(self.coil_bits(), address, count as int),
            out@.len() == count,
            forall|i: int|
                0 <= i < count ==> #[trigger] out@[i] == bit_in(
                    self.coil_bits(),
                    sat_addr(address, i),
                ),
    {
        let mut out: Vec<bool> = Vec::new();
        let mut i: u16 = 0;
        while i < count
            invariant
                0 <= i <= count,
                out@.len() == i,
                forall|j: int|
                    0 <= j < i ==> #[trigger] out@[j] == bit_in(self.coil_bits(), sat_addr(address, j)),
            decreases count - i,
        {
            out.push(self.get_coil(address.saturating_add(i)));
            i = i + 1;
        }
        assert(out@ =~= bit_run(self.coil_bits(), address, count as int));
        out
    }

    /// Read `count` discrete inputs; addresses saturate at the last address.
    pub fn read_discrete(&self, address: u16, count: u16) -> (out: Vec<bool>)
        ensures
            out@ == bit_run(self.discrete_bits(), address, count as int),
            out@.len() == count,
            forall|i: int|
                0 <= i < count ==> #[trigger] out@[i] == bit_in(
                    self.discrete_bits(),
                    sat_addr(address, i),
                ),
    {
        let mut out: Vec<bool> = Vec::new();
        let mut i: u16 = 0;
        while i < count
            invariant
                0 <= i <= count,
                out@.len() == i,
                forall|j: int|
                    0 <= j < i ==> #[trigger] out@[j] == bit_in(
                        self.discrete_bits(),
                        sat_addr(address, j),
                    ),
            decreases count - i,
        {
            out.push(self.get_discrete(address.saturating_add(i)));
            i = i + 1;
        }
        assert(out@ =~= bit_run(self.discrete_bits(), address, count as int));
        out
    }

    /// Write coils starting at `address`. Every bit must exist; otherwise
    /// `Err` is the first unmapped (or overflowing) address and nothing changes.
    pub fn write_coils(&mut self, address: u16, values: &[bool]) -> (r: Result<(), u16>)
        ensures
            r == coil_write_result(old(self).coil_bits(), address, values@.len() as int),
            r is Ok ==> final(self).coil_bits() == set_bits_prefix(
                old(self).coil_bits(),
                address,
                values@,
                values@.len(),
            ),
            r is Err ==> final(self).coil_bits() == old(self).coil_bits(),
            forall|s: RegisterSpace| final(self).cells(s) == old(self).cells(s),
            final(self).endian() == old(self).endian(),
            final(self).discrete_bits() == old(self).discrete_bits(),
    {
        let ghost m = self.coils@;
        if values.len() == 0 {
            return Err(address);
        }
        let mut addrs: Vec<u16> = Vec::new();
        let mut i: usize = 0;
        while i < values.len()
            invariant
                0 <= i <= values@.len(),
                m == self.coils@,
                addrs@.len() == i,
                forall|j: int| 0 <= j < i ==> !coil_write_gap(m, address, j),
                forall|j: int|
                    0 <= j < i ==> #[trigger] addrs@[j] == (address + (j % 65536)) as u16,
            decreases values@.len() - i,
        {
            let off = (i % 65536) as u16;
            let addr = match address.checked_add(off) {
                Some(a) => a,
                None => {
                    proof {
                        lemma_first_coil_gap(m, address, values@.len() as int, i as int);
                    }
                    return Err(address);
                },
            };
            if !self.coils.contains_key(&addr) {
                proof {
                    lemma_first_coil_gap(m, address, values@.len() as int, i as int);
                }
                return Err(addr);
            }
            addrs.push(addr);
            i = i + 1;
        }
        let mut k: usize = 0;
        while k < addrs.len()
            invariant
                0 <= k <= addrs@.len(),
                addrs@.len() == values@.len(),
                forall|j: int| 0 <= j < values@.len() ==> !coil_write_gap(m, address, j),
                forall|j: int|
                    0 <= j < addrs@.len() ==> #[trigger] addrs@[j] == (address + (j % 65536)) as u16,
                self.coils@ == set_bits_prefix(m, address, values@, k as nat),
                self.coils@.dom() == m.dom(),
                forall|s: RegisterSpace| self.cells(s) == old(self).cells(s),
                self.endian() == old(self).endian(),
                self.discrete_bits() == old(self).discrete_bits(),
            decreases addrs@.len() - k,
        {
            proof {
                assert(!coil_write_gap(m, address, k as int));
            }
            self.set_coil(addrs[k], values[k]);
            proof {
                assert(self.coils@ =~= set_bits_prefix(m, address, values@, (k + 1) as nat));
            }
            k = k + 1;
        }
        Ok(())
    }

    fn expand(&self, space: RegisterSpace) -> (out: BTreeMap<u16, u16>)
        ensures
            out@ == word_map(self.cells(space), self.endian()),
    {
        let map = self.map(space);
        let ghost m = map@;
        let ghost all = vstd::std_specs::btree::spec_keys_iter(map).remaining();
        let mut keys: Vec<u16> = Vec::new();
        for k in it: map.keys()
            invariant
                it.seq() == all,
                0 <= it.index() <= all.len(),
                keys@ == all.take(it.index() as int).unref(),
        {
            let ghost before = keys@;
            keys.push(*k);
            proof {
                assert(0 <= it.index() < all.len());
                assert(*k == *all[it.index()]);
                assert(all.take(it.index() + 1).unref() =~= before.push(*k));
            }
        }
        proof {
            assert(keys@.len() == all.len());
            assert(keys@ =~= all.unref());
            assert(all.unref().to_set() == m.dom());
            assert forall|a: u16| m.contains_key(a) implies keys@.contains(a) by {
                assert(all.unref().to_set().contains(a));
            }
            assert forall|a: u16| keys@.contains(a) implies m.contains_key(a) by {
                assert(all.unref().to_set().contains(a));
            }
        }
        let e = self.endianness;
        let mut out: BTreeMap<u16, u16> = BTreeMap::new();
        let mut j: usize = 0;
        while j < keys.len()
            invariant
                0 <= j <= keys@.len(),
                m == map@,
                e == self.endian(),
                forall|a: u16| keys@.contains(a) ==> m.contains_key(a),
                out@ == Map::new(
                    |a: u16| shown_by(m, keys@.take(j as int), a),
                    |a: u16| word_in(m, e, a).unwrap(),
                ),
            decreases keys@.len() - j,
        {
            let b = keys[j];
            assert(keys@.contains(b));
            let cell = match map.get(&b) {
                Some(c) => *c,
                None => {
                    assert(false);
                    return out;
                },
            };
            let ws = encode_words(cell.value, e);
            if ws.len() == 2 && b < 65535 && !map.contains_key(&(b + 1)) {
                out.insert(b + 1, ws[1]);
            }
            if b == 65535 && ws.len() == 2 {
                out.insert(b, ws[1]);
            } else {
                out.insert(b, ws[0]);
            }
            proof {
                let next = keys@.take((j + 1) as int);
                assert(next == keys@.take(j as int).push(b));
                assert forall|a: u16| shown_by(m, next, a) <==> (shown_by(m, keys@.take(j as int), a)
                    || a == b || (b + 1 == a && m[b].value.kind().words() == 2 && !m.contains_key(a))) by {
                    if shown_by(m, next, a) {
                        let q = choose|q: int|
                            0 <= q < next.len() && (next[q] == a || (next[q] + 1 == a
                                && m[next[q]].value.kind().words() == 2 && !m.contains_key(a)));
                        if q < j {
                            assert(keys@.take(j as int)[q] == next[q]);
                        }
                    }
                    if shown_by(m, keys@.take(j as int), a) {
                        let q = choose|q: int|
                            0 <= q < j && (keys@.take(j as int)[q] == a || (keys@.take(j as int)[q] + 1 == a
                                && m[keys@.take(j as int)[q]].value.kind().words() == 2
                                && !m.contains_key(a)));
                        assert(next[q] == keys@.take(j as int)[q]);
                    }
                    if a == b || (b + 1 == a && m[b].value.kind().words() == 2 && !m.contains_key(a)) {
                        assert(next[j as int] == b);
                    }
                }
                assert(out@ =~= Map::new(
                    |a: u16| shown_by(m, next, a),
                    |a: u16| word_in(m, e, a).unwrap(),
                ));
            }
            j = j + 1;
        }
        proof {
            assert(keys@.take(keys@.len() as int) == keys@);
            assert forall|a: u16| shown_by(m, keys@, a) <==> (word_in(m, e, a) is Some) by {
                if word_in(m, e, a) is Some {
                    if m.contains_key(a) {
                        let q = choose|q: int| 0 <= q < keys@.len() && keys@[q] == a;
                    } else {
                        let b = (a - 1) as u16;
                        assert(keys@.contains(b));
                        let q = choose|q: int| 0 <= q < keys@.len() && keys@[q] == b;
                    }
                }
            }
            assert(out@ =~= word_map(m, e));
        }
        out
    }

    /// Snapshot all occupied addresses as 16-bit words / bits.
    pub fn snapshot(&self) -> (snap: Snapshot)
        ensures
            snap.holding@ == word_map(self.cells(RegisterSpace::Holding), self.endian()),
            snap.input@ == word_map(self.cells(RegisterSpace::Input), self.endian()),
            snap.coils@ == self.coil_bits(),
            snap.discrete@ == self.discrete_bits(),
    {
        Snapshot {
            holding: self.expand(RegisterSpace::Holding),
            input: self.expand(RegisterSpace::Input),
            coils: self.coils.clone(),
            discrete: self.discrete.clone(),
        }
    }

    /// Configured endianness.
    pub fn endianness(&self) -> (e: Endianness)
        ensures
            e == self.endian(),
    {
        self.endianness
    }
}

/// The first failing index of a run determines the reported gap.
proof fn lemma_first_word_gap(m: Map<u16, NumericCell>, address: u16, count: int, i: int)
    requires
        0 <= i < count,
        word_gap(m, address, i),
        forall|j: int| 0 <= j < i ==> !word_gap(m, address, j),
    ensures
        word_range_result(m, address, count) == Err::<(), u16>(gap_address(address, i)),
{
    let k = choose|k: int|
        0 <= k < count && word_gap(m, address, k) && forall|j: int|
            0 <= j < k ==> !word_gap(m, address, j);
    assert(k == i);
}

/// Outside the last-address corner, the word shown at an address is the word
/// of its owning cell at the owning offset.
proof fn lemma_word_in_owner(m: Map<u16, NumericCell>, e: Endianness, a: u16)
    requires
        owner_of(m, a) is Some,
        !(a == 65535 && m.contains_key(a) && m[a].value.kind().words() == 2),
    ensures
        ({
            let (b, k) = owner_of(m, a).unwrap();
            word_in(m, e, a) == Some(cell_words(m[b].value, e)[k])
        }),
{
}

/// Writing a run whose every address is implemented, then reading any of
/// those addresses, gives back the word written there. The one exception is
/// a two-word cell based at the last address, which shows its second word
/// there while a write to that address lands in its first word.
pub proof fn lemma_read_after_write(
    m: Map<u16, NumericCell>,
    e: Endianness,
    address: u16,
    ws: Seq<u16>,
    i: int,
)
    requires
        ws.len() <= 65535,
        forall|j: int| 0 <= j < ws.len() ==> !word_gap(m, address, j),
        0 <= i < ws.len(),
        !(address + i == 65535 && m.contains_key(65535) && m[65535].value.kind().words() == 2),
    ensures
        word_in(write_prefix(m, e, address, ws, ws.len()), e, (address + i) as u16) == Some(ws[i]),
{
    lemma_read_after_write_upto(m, e, address, ws, i, ws.len());
}

proof fn lemma_read_after_write_upto(
    m: Map<u16, NumericCell>,
    e: Endianness,
    address: u16,
    ws: Seq<u16>,
    i: int,
    n: nat,
)
    requires
        n <= ws.len() <= 65535,
        forall|j: int| 0 <= j < ws.len() ==> !word_gap(m, address, j),
        0 <= i < n,
        !(address + i == 65535 && m.contains_key(65535) && m[65535].value.kind().words() == 2),
    ensures
        word_in(write_prefix(m, e, address, ws, n), e, (address + i) as u16) == Some(ws[i]),
    decreases n,
{
    let a = (address + i) as u16;
    let prev = write_prefix(m, e, address, ws, (n - 1) as nat);
    let x = (address + n - 1) as u16;
    assert(!word_gap(m, address, i));
    assert(!word_gap(m, address, n - 1));
    lemma_write_prefix_keeps_owners(m, e, address, ws, (n - 1) as nat, a);
    lemma_write_prefix_keeps_owners(m, e, address, ws, (n - 1) as nat, x);
    let next = write_prefix(m, e, address, ws, n);
    let (bx, kx) = owner_of(prev, x).unwrap();
    let (ba, ka) = owner_of(prev, a).unwrap();
    lemma_encode_decode(cell_words(prev[bx].value, e).update(kx, ws[n - 1]), prev[bx].value.kind(), e);
    lemma_write_prefix_keeps_owners(m, e, address, ws, n, a);
    if i == n - 1 {
        lemma_word_in_owner(next, e, a);
        assert(cell_words(next[bx].value, e) == cell_words(prev[bx].value, e).update(kx, ws[n - 1]));
    } else {
        lemma_read_after_write_upto(m, e, address, ws, i, (n - 1) as nat);
        lemma_word_in_owner(prev, e, a);
        lemma_word_in_owner(next, e, a);
        if ba == bx {
            assert(ka != kx);
        }
    }
}

proof fn lemma_first_bit_gap(m: Map<u16, bool>, address: u16, count: int, i: int)
    requires
        0 <= i < count,
        bit_gap(m, address, i),
        forall|j: int| 0 <= j < i ==> !bit_gap(m, address, j),
    ensures
        bit_range_result(m, address, count) == Err::<(), u16>(gap_address(address, i)),
{
    let k = choose|k: int|
        0 <= k < count && bit_gap(m, address, k) && forall|j: int|
            0 <= j < k ==> !bit_gap(m, address, j);
    assert(k == i);
}

proof fn lemma_first_coil_gap(m: Map<u16, bool>, address: u16, n: int, i: int)
    requires
        0 <= i < n,
        coil_write_gap(m, address, i),
        forall|j: int| 0 <= j < i ==> !coil_write_gap(m, address, j),
    ensures
        coil_write_result(m, address, n) == Err::<(), u16>(gap_address(address, i % 65536)),
{
    let k = choose|k: int|
        0 <= k < n && coil_write_gap(m, address, k) && forall|j: int|
            0 <= j < k ==> !coil_write_gap(m, address, j);
    assert(k == i);
}

/// Writing a run of coils that all exist, then reading any of them, gives
/// back the bit written there (for runs no longer than the address space).
pub proof fn lemma_coils_read_after_write(m: Map<u16, bool>, address: u16, vs: Seq<bool>, i: int)
    requires
        vs.len() <= 65536,
        forall|j: int| 0 <= j < vs.len() ==> !coil_write_gap(m, address, j),
        0 <= i < vs.len(),
    ensures
        bit_in(set_bits_prefix(m, address, vs, vs.len()), (address + i) as u16) == vs[i],
{
    lemma_coils_read_after_write_upto(m, address, vs, i, vs.len());
}

proof fn lemma_coils_read_after_write_upto(
    m: Map<u16, bool>,
    address: u16,
    vs: Seq<bool>,
    i: int,
    n: nat,
)
    requires
        n <= vs.len() <= 65536,
        forall|j: int| 0 <= j < vs.len() ==> !coil_write_gap(m, address, j),
        0 <= i < n,
    ensures
        bit_in(set_bits_prefix(m, address, vs, n), (address + i) as u16) == vs[i],
    decreases n,
{
    assert(!coil_write_gap(m, address, i));
    assert(!coil_write_gap(m, address, n - 1));
    assert(i % 65536 == i);
    assert((n - 1) % 65536 == n - 1);
    if i < n - 1 {
        lemma_coils_read_after_write_upto(m, address, vs, i, (n - 1) as nat);
    }
}

/// Splicing keeps a cell's type.
proof fn lemma_splice_kind(cell: CellValue, k: int, w: u16, e: Endianness)
    requires
        0 <= k < cell.kind().words(),
    ensures
        splice(cell, k, w, e).kind() == cell.kind(),
{
}

/// Writing inside a covered run never changes which cell owns an address.
proof fn lemma_write_prefix_keeps_owners(
    m: Map<u16, NumericCell>,
    e: Endianness,
    address: u16,
    ws: Seq<u16>,
    n: nat,
    a: u16,
)
    requires
        n <= ws.len(),
        forall|j: int| 0 <= j < n ==> !word_gap(m, address, j),
    ensures
        owner_of(write_prefix(m, e, address, ws, n), a) == owner_of(m, a),
        write_prefix(m, e, address, ws, n).dom() == m.dom(),
        forall|b: u16|
            #[trigger] m.contains_key(b) ==> write_prefix(m, e, address, ws, n)[b].value.kind()
                == m[b].value.kind() && write_prefix(m, e, address, ws, n)[b].scale == m[b].scale,
    decreases n,
{
    if n > 0 {
        lemma_write_prefix_keeps_owners(m, e, address, ws, (n - 1) as nat, a);
        let prev = write_prefix(m, e, address, ws, (n - 1) as nat);
        let x = (address + n - 1) as u16;
        assert(!word_gap(m, address, n - 1));
        lemma_write_prefix_keeps_owners(m, e, address, ws, (n - 1) as nat, x);
        let next = write_prefix(m, e, address, ws, n);
        match owner_of(prev, x) {
            Some((b, k)) => {
                lemma_splice_kind(prev[b].value, k, ws[n - 1], e);
                assert(next.dom() =~= m.dom());
                assert forall|c: u16| #[trigger] m.contains_key(c) implies next[c].value.kind()
                    == m[c].value.kind() && next[c].scale == m[c].scale by {
                    lemma_write_prefix_keeps_owners(m, e, address, ws, (n - 1) as nat, c);
                }
            },
            None => {},
        }
    }
}

} // verus!
