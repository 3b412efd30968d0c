use vstd::prelude::*;

verus! {

/// An opaque, copyable value identifying a block type and variant.
/// Two block states are the same block exactly when they are equal;
/// the state registered first (id 0) is "air", the passable block.
#[derive(Copy, Clone, PartialEq, Eq, Structural, Debug)]
pub struct BlockState {
    pub id: u32,
}

/// One entry of the block registry: a named block type together with
/// its default state.
pub struct Block {
    pub id: u32,
    pub name: String,
    pub default_state: BlockState,
}

impl Block {
    pub fn get_default_state(&self) -> (s: BlockState)
        ensures
            s == self.default_state,
    {
        self.default_state
    }
}

/// The block registry: block types in registration order. Block ids are
/// their registration indices, so default states of distinct entries are
/// distinct. The first registered block is always "air".
pub struct Blocks {
    pub blocks: Vec<Block>,
}

/// The index of the first block in `s`, at or after `i`, whose name is
/// `name`; `s.len()` when there is none.
pub open spec fn name_index_from(s: Seq<Block>, name: Seq<char>, i: int) -> int
    decreases s.len() - i,
{
    if i < 0 || i >= s.len() {
        s.len() as int
    } else if s[i].name@ == name {
        i
    } else {
        name_index_from(s, name, i + 1)
    }
}

impl Blocks {
    /// Entries have sequential ids and default states matching their ids.
    pub open spec fn ids_sequential(self) -> bool {
        forall|i: int|
            0 <= i < self.blocks@.len() ==> {
                &&& (#[trigger] self.blocks@[i]).id == i
                &&& self.blocks@[i].default_state == (BlockState { id: i as u32 })
            }
    }

    pub open spec fn wf(self) -> bool {
        &&& self.ids_sequential()
        &&& self.blocks@.len() >= 1
        &&& self.blocks@[0].name@ == "air"@
    }

    /// The default state of the "air" block.
    pub open spec fn air_state(self) -> BlockState {
        self.blocks@[0].default_state
    }

    /// The index of the first block named `name`, or the number of blocks
    /// when no block has that name.
    pub open spec fn name_index(self, name: Seq<char>) -> int {
        name_index_from(self.blocks@, name, 0)
    }

    /// A fresh registry holding the built-in blocks: "air" and the
    /// unbreakable filler block "adm".
    pub fn new() -> (r: Blocks)
        ensures
            r.wf(),
            r.blocks@.len() == 2,
            r.blocks@[1].name@ == "adm"@,
            r.air_state() == (BlockState { id: 0 }),
    {
        let mut r = Blocks { blocks: Vec::new() };
        r.register_block("air");
        r.register_block("adm");
        r
    }

    /// Appends a block type under the given name and returns its default
    /// state, which differs from the default state of every earlier entry.
    pub fn register_block(&mut self, name: &str) -> (s: BlockState)
        requires
            old(self).ids_sequential(),
            old(self).blocks@.len() < u32::MAX,
        ensures
            final(self).ids_sequential(),
            final(self).blocks@.len() == old(self).blocks@.len() + 1,
            final(self).blocks@.drop_last() == old(self).blocks@,
            final(self).blocks@.last().id == old(self).blocks@.len() as u32,
            final(self).blocks@.last().name@ == name@,
            final(self).blocks@.last().default_state == (BlockState {
                id: old(self).blocks@.len() as u32,
            }),
            s == (BlockState { id: old(self).blocks@.len() as u32 }),
    {
        let id = self.blocks.len() as u32;
        let state = BlockState { id };
        self.blocks.push(Block { id, name: name.to_owned(), default_state: state });
        state
    }

    /// Returns the first registered block with the given name. The caller
    /// must know that some block has that name; looking up a name that was
    /// never registered is a caller error.
    pub fn get_block_by_name_unchecked(&self, name: &str) -> (b: &Block)
        requires
            self.name_index(name@) < self.blocks@.len(),
        ensures
            *b == self.blocks@[self.name_index(name@)],
    {
        let n = self.blocks.len();
        for i in 0..n
            invariant
                n == self.blocks@.len(),
                self.name_index(name@) == name_index_from(self.blocks@, name@, i as int),
                self.name_index(name@) < n,
        {
            if string_eq_str(&self.blocks[i].name, name) {
                return &self.blocks[i];
            }
        }
        proof {
            assert(false);
        }
        &self.blocks[0]
    }
}

/// True exactly when the string and the string slice hold the same
/// characters.
fn string_eq_str(a: &String, b: &str) -> (r: bool)
    ensures
        r == (a@ == b@),
{
    let owned: String = b.to_owned();
    *a == owned
}

} // verus!
