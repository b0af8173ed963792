//! Block numbers and block pointers.

use vstd::prelude::*;

verus! {

/// The height of a block in its chain.
pub type BlockNumber = i32;

/// A block of the chain: its height, and the hash that tells it from a
/// competing block at the same height.
#[derive(Debug)]
pub struct BlockPtr {
    pub hash: Vec<u8>,
    pub number: BlockNumber,
}

/// The mathematical value of a `BlockPtr`.
pub struct BlockPtrView {
    pub hash: Seq<u8>,
    pub number: BlockNumber,
}

impl View for BlockPtr {
    type V = BlockPtrView;

    open spec fn view(&self) -> BlockPtrView {
        BlockPtrView { hash: self.hash@, number: self.number }
    }
}

impl Clone for BlockPtr {
    fn clone(&self) -> (res: Self)
        ensures
            res@ == self@,
    {
        BlockPtr { hash: copy_bytes(&self.hash), number: self.number }
    }
}

impl BlockPtr {
    pub fn new(hash: Vec<u8>, number: BlockNumber) -> (ptr: Self)
        ensures
            ptr@.hash == hash@,
            ptr@.number == number,
    {
        BlockPtr { hash, number }
    }

    /// The height of the block.
    pub fn block_number(&self) -> (n: BlockNumber)
        ensures
            n == self@.number,
    {
        self.number
    }

    /// Whether two pointers name the same block.
    pub fn same(&self, other: &BlockPtr) -> (res: bool)
        ensures
            res == (self@ == other@),
    {
        let eq = self.number == other.number && bytes_eq(&self.hash, &other.hash);
        proof {
            if eq {
                assert(self@.hash =~= other@.hash);
            }
        }
        eq
    }
}

/// A copy of a byte string.
pub fn copy_bytes(bytes: &Vec<u8>) -> (res: Vec<u8>)
    ensures
        res@ == bytes@,
{
    let mut res: Vec<u8> = Vec::new();
    let mut i: usize = 0;
    while i < bytes.len()
        invariant
            i <= bytes.len(),
            res@ == bytes@.take(i as int),
        decreases bytes.len() - i,
    {
        res.push(bytes[i]);
        i = i + 1;
        assert(res@ =~= bytes@.take(i as int));
    }
    assert(bytes@.take(bytes.len() as int) =~= bytes@);
    res
}

/// Whether two byte strings hold the same bytes.
pub fn bytes_eq(a: &Vec<u8>, b: &Vec<u8>) -> (res: bool)
    ensures
        res == (a@ == b@),
{
    if a.len() != b.len() {
        return false;
    }
    let mut i: usize = 0;
    while i < a.len()
        invariant
            i <= a.len(),
            a.len() == b.len(),
            a@.take(i as int) == b@.take(i as int),
        decreases a.len() - i,
    {
        if a[i] != b[i] {
            return false;
        }
        i = i + 1;
        assert(a@.take(i as int) =~= a@.take(i - 1).push(a@[i - 1]));
        assert(b@.take(i as int) =~= b@.take(i - 1).push(b@[i - 1]));
    }
    assert(a@.take(a.len() as int) =~= a@);
    assert(b@.take(b.len() as int) =~= b@);
    true
}

/// A copy of a list of names.
pub fn copy_strings(names: &Vec<String>) -> (res: Vec<String>)
    ensures
        texts(res@) == texts(names@),
{
    let mut res: Vec<String> = Vec::new();
    let mut i: usize = 0;
    while i < names.len()
        invariant
            i <= names.len(),
            res@.len() == i,
            forall|j: int| 0 <= j < i ==> res@[j]@ == names@[j]@,
        decreases names.len() - i,
    {
        res.push(names[i].clone());
        i = i + 1;
    }
    assert(texts(res@) =~= texts(names@));
    res
}

/// The texts that a list of strings holds.
pub open spec fn texts(names: Seq<String>) -> Seq<Seq<char>> {
    names.map_values(|s: String| s@)
}

} // verus!
