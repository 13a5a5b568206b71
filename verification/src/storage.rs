//! The persistent store: one 32-byte word for every pair of a contract address
//! and a slot. A cell that was never written reads as zero.

use vstd::prelude::*;
use crate::primitives::{Address, U256};

verus! {

/// A key of the store: the bytes of the address and the bytes of the slot.
pub type CellKey = (Seq<u8>, Seq<u8>);

/// The word that an unwritten cell reads as.
pub open spec fn zero_word() -> Seq<u8> {
    Seq::new(32, |i: int| 0u8)
}

/// One written cell.
#[derive(Clone, Copy, Debug)]
pub struct StorageCell {
    pub address: Address,
    pub slot: U256,
    pub value: U256,
}

impl StorageCell {
    /// The key under which the cell is kept.
    pub open spec fn key(&self) -> CellKey {
        (self.address@, self.slot@)
    }
}

/// The map that a list of cells stands for. Where two cells have one key, the
/// earlier one counts.
pub open spec fn cells_map(cells: Seq<StorageCell>) -> Map<CellKey, Seq<u8>>
    decreases cells.len(),
{
    if cells.len() == 0 {
        Map::empty()
    } else {
        cells_map(cells.drop_first()).insert(cells.first().key(), cells.first().value@)
    }
}

/// Whether no cell before place `i` has the key `key`.
pub open spec fn no_match_before(cells: Seq<StorageCell>, i: int, key: CellKey) -> bool {
    forall|j: int| 0 <= j < i && j < cells.len() ==> cells[j].key() != key
}

/// The map holds, at a key, the value of the first cell that has the key.
pub proof fn lemma_first_match(cells: Seq<StorageCell>, i: int)
    requires
        0 <= i < cells.len(),
        no_match_before(cells, i, cells[i].key()),
    ensures
        cells_map(cells).contains_key(cells[i].key()),
        cells_map(cells)[cells[i].key()] == cells[i].value@,
    decreases cells.len(),
{
    if i > 0 {
        let rest = cells.drop_first();
        assert(rest[i - 1] == cells[i]);
        assert(no_match_before(rest, i - 1, cells[i].key())) by {
            assert forall|j: int| 0 <= j < i - 1 && j < rest.len() implies rest[j].key()
                != cells[i].key() by {
                assert(rest[j] == cells[j + 1]);
            }
        }
        lemma_first_match(rest, i - 1);
        assert(cells[0].key() != cells[i].key());
    }
}

/// The map has no key that no cell has.
pub proof fn lemma_no_match(cells: Seq<StorageCell>, key: CellKey)
    requires
        no_match_before(cells, cells.len() as int, key),
    ensures
        !cells_map(cells).contains_key(key),
    decreases cells.len(),
{
    if cells.len() > 0 {
        let rest = cells.drop_first();
        assert(no_match_before(rest, rest.len() as int, key)) by {
            assert forall|j: int| 0 <= j < rest.len() implies rest[j].key() != key by {
                assert(rest[j] == cells[j + 1]);
            }
        }
        lemma_no_match(rest, key);
        assert(cells[0].key() != key);
    }
}

/// Replacing the first cell that has a key is an insert at that key.
pub proof fn lemma_update_first_match(cells: Seq<StorageCell>, i: int, cell: StorageCell)
    requires
        0 <= i < cells.len(),
        cell.key() == cells[i].key(),
        no_match_before(cells, i, cell.key()),
    ensures
        cells_map(cells.update(i, cell)) =~= cells_map(cells).insert(cell.key(), cell.value@),
    decreases cells.len(),
{
    let updated = cells.update(i, cell);
    let rest = cells.drop_first();
    if i == 0 {
        assert(updated.drop_first() =~= rest);
    } else {
        assert(rest[i - 1] == cells[i]);
        assert(no_match_before(rest, i - 1, cell.key())) by {
            assert forall|j: int| 0 <= j < i - 1 && j < rest.len() implies rest[j].key()
                != cell.key() by {
                assert(rest[j] == cells[j + 1]);
            }
        }
        lemma_update_first_match(rest, i - 1, cell);
        assert(updated.drop_first() =~= rest.update(i - 1, cell));
        assert(updated.first() == cells.first());
        assert(cells[0].key() != cell.key());
    }
}

/// Appending a cell whose key no cell has is an insert at that key.
pub proof fn lemma_push_no_match(cells: Seq<StorageCell>, cell: StorageCell)
    requires
        no_match_before(cells, cells.len() as int, cell.key()),
    ensures
        cells_map(cells.push(cell)) =~= cells_map(cells).insert(cell.key(), cell.value@),
    decreases cells.len(),
{
    let pushed = cells.push(cell);
    if cells.len() == 0 {
        assert(pushed.drop_first() =~= cells);
        assert(pushed.first() == cell);
    } else {
        let rest = cells.drop_first();
        assert(no_match_before(rest, rest.len() as int, cell.key())) by {
            assert forall|j: int| 0 <= j < rest.len() implies rest[j].key() != cell.key() by {
                assert(rest[j] == cells[j + 1]);
            }
        }
        lemma_push_no_match(rest, cell);
        assert(pushed.drop_first() =~= rest.push(cell));
        assert(pushed.first() == cells.first());
        assert(cells[0].key() != cell.key());
    }
}

/// Every value of the map is the 32 bytes of a word.
pub proof fn lemma_cells_map_words(cells: Seq<StorageCell>, key: CellKey)
    ensures
        cells_map(cells).contains_key(key) ==> cells_map(cells)[key].len() == 32,
    decreases cells.len(),
{
    if cells.len() > 0 {
        lemma_cells_map_words(cells.drop_first(), key);
    }
}

/// The store, held in memory.
pub struct Storage {
    cells: Vec<StorageCell>,
}

impl View for Storage {
    type V = Map<CellKey, Seq<u8>>;

    closed spec fn view(&self) -> Map<CellKey, Seq<u8>> {
        cells_map(self.cells@)
    }
}

impl Storage {
    /// The word that the cell `(address, slot)` reads as.
    pub open spec fn word_at(&self, address: Seq<u8>, slot: Seq<u8>) -> Seq<u8> {
        if self@.contains_key((address, slot)) {
            self@[(address, slot)]
        } else {
            zero_word()
        }
    }

    /// Every cell reads as the 32 bytes of a word.
    pub proof fn lemma_word_len(&self, address: Seq<u8>, slot: Seq<u8>)
        ensures
            self.word_at(address, slot).len() == 32,
    {
        lemma_cells_map_words(self.cells@, (address, slot));
    }

    /// A store in which nothing was written.
    pub fn new() -> (r: Storage)
        ensures
            r@ == Map::<CellKey, Seq<u8>>::empty(),
    {
        Storage { cells: Vec::new() }
    }

    /// The place of the first cell with the key `(address, slot)`, if there is one.
    fn find(&self, address: &Address, slot: &U256) -> (r: Option<usize>)
        ensures
            match r {
                Some(i) => i < self.cells@.len() && self.cells@[i as int].key() == (
                    address@,
                    slot@,
                ) && no_match_before(self.cells@, i as int, (address@, slot@)),
                None => no_match_before(
                    self.cells@,
                    self.cells@.len() as int,
                    (address@, slot@),
                ),
            },
    {
        let mut i: usize = 0;
        while i < self.cells.len()
            invariant
                i <= self.cells@.len(),
                no_match_before(self.cells@, i as int, (address@, slot@)),
            decreases self.cells@.len() - i,
        {
            let cell = &self.cells[i];
            if cell.address == *address && cell.slot == *slot {
                return Some(i);
            }
            i = i + 1;
        }
        None
    }

    /// Reads the word of the cell `(address, slot)`.
    pub fn sload(&self, address: &Address, slot: &U256) -> (r: U256)
        ensures
            r@ == self.word_at(address@, slot@),
    {
        match self.find(address, slot) {
            Some(i) => {
                proof {
                    lemma_first_match(self.cells@, i as int);
                }
                self.cells[i].value
            },
            None => {
                proof {
                    lemma_no_match(self.cells@, (address@, slot@));
                }
                U256::zero()
            },
        }
    }

    /// Writes `value` to the cell `(address, slot)`; no other cell changes.
    pub fn sstore(&mut self, address: &Address, slot: &U256, value: &U256)
        ensures
            final(self)@ == old(self)@.insert((address@, slot@), value@),
    {
        let cell = StorageCell { address: *address, slot: *slot, value: *value };
        match self.find(address, slot) {
            Some(i) => {
                proof {
                    lemma_update_first_match(self.cells@, i as int, cell);
                }
                self.cells[i] = cell;
            },
            None => {
                proof {
                    lemma_push_no_match(self.cells@, cell);
                }
                self.cells.push(cell);
            },
        }
    }
}

} // verus!
