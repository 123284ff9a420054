use vstd::prelude::*;
use vstd::map::*;

verus! {

/// Entries are strictly ascending by address.
pub open spec fn sorted_by_addr(s: Seq<(u32, u8)>) -> bool {
    forall|i: int, j: int|
        0 <= i < j < s.len() ==> (#[trigger] s[i]).0 < (#[trigger] s[j]).0
}

/// The sparse address-to-byte mapping an entry list denotes.
pub open spec fn seq_to_map(s: Seq<(u32, u8)>) -> Map<u32, u8>
    decreases s.len(),
{
    if s.len() == 0 {
        Map::empty()
    } else {
        seq_to_map(s.drop_last()).insert(s.last().0, s.last().1)
    }
}

pub proof fn lemma_stm_contains(s: Seq<(u32, u8)>, k: u32)
    ensures
        seq_to_map(s).dom().contains(k) <==> exists|j: int|
            0 <= j < s.len() && (#[trigger] s[j]).0 == k,
    decreases s.len(),
{
    if s.len() > 0 {
        lemma_stm_contains(s.drop_last(), k);
        if seq_to_map(s).dom().contains(k) {
            if s.last().0 != k {
                let j = choose|j: int| 0 <= j < s.drop_last().len() && (#[trigger] s.drop_last()[j]).0 == k;
                assert(s[j].0 == k);
            } else {
                assert(s[s.len() - 1].0 == k);
            }
        }
        if exists|j: int| 0 <= j < s.len() && (#[trigger] s[j]).0 == k {
            let j = choose|j: int| 0 <= j < s.len() && (#[trigger] s[j]).0 == k;
            if j < s.len() - 1 {
                assert(s.drop_last()[j].0 == k);
            }
        }
    }
}

pub proof fn lemma_stm_value(s: Seq<(u32, u8)>, j: int)
    requires
        sorted_by_addr(s),
        0 <= j < s.len(),
    ensures
        seq_to_map(s).dom().contains(s[j].0),
        seq_to_map(s)[s[j].0] == s[j].1,
    decreases s.len(),
{
    if j == s.len() - 1 {
    } else {
        assert(sorted_by_addr(s.drop_last())) by {
            assert(forall|p: int, q: int|
                0 <= p < q < s.drop_last().len() ==> (#[trigger] s.drop_last()[p]).0
                    < (#[trigger] s.drop_last()[q]).0);
        }
        lemma_stm_value(s.drop_last(), j);
        assert(s[j].0 < s.last().0);
    }
}

/// A sparse firmware image: an ordered mapping from absolute 32-bit
/// addresses to byte values, with no address held twice.
#[derive(Debug)]
pub struct Image {
    entries: Vec<(u32, u8)>,
}

impl View for Image {
    type V = Seq<(u32, u8)>;

    closed spec fn view(&self) -> Seq<(u32, u8)> {
        self.entries@
    }
}

impl Image {
    /// Ordering invariant: strictly ascending addresses.
    pub open spec fn wf(&self) -> bool {
        sorted_by_addr(self@)
    }

    /// The mapping this image denotes.
    pub open spec fn to_map(&self) -> Map<u32, u8> {
        seq_to_map(self@)
    }

    /// An image holding nothing.
    pub fn new() -> (r: Image)
        ensures
            r.wf(),
            r@ == Seq::<(u32, u8)>::empty(),
    {
        Image { entries: Vec::new() }
    }

    /// How many addressed bytes the image holds.
    pub fn len(&self) -> (r: usize)
        ensures
            r == self@.len(),
    {
        self.entries.len()
    }

    /// The entry at a position, in ascending address order.
    pub fn entry(&self, i: usize) -> (r: (u32, u8))
        requires
            i < self@.len(),
        ensures
            r == self@[i as int],
    {
        (self.entries[i].0, self.entries[i].1)
    }

    /// Stores one byte, overwriting any byte already at the same address.
    pub fn insert(&mut self, addr: u32, b: u8)
        requires
            old(self).wf(),
        ensures
            final(self).wf(),
            final(self).to_map() == old(self).to_map().insert(addr, b),
            old(self)@.len() <= final(self)@.len() <= old(self)@.len() + 1,
    {
        let ghost s0 = self.entries@;
        let mut i: usize = 0;
        while i < self.entries.len() && self.entries[i].0 < addr
            invariant
                i <= self.entries@.len(),
                self.entries@ == s0,
                forall|k: int| 0 <= k < i ==> (#[trigger] s0[k]).0 < addr,
            decreases self.entries@.len() - i,
        {
            i = i + 1;
        }
        if i < self.entries.len() && self.entries[i].0 == addr {
            self.entries.remove(i);
            self.entries.insert(i, (addr, b));
            proof {
                assert(self.entries@ =~= s0.update(i as int, (addr, b)));
                lemma_map_update(s0, i as int, b);
            }
        } else {
            proof {
                assert(forall|k: int|
                    i <= k < s0.len() ==> (#[trigger] s0[k]).0 > addr) by {
                    assert(forall|k: int| i < k < s0.len() ==> s0[i as int].0 < (#[trigger] s0[k]).0);
                }
            }
            self.entries.insert(i, (addr, b));
            proof {
                lemma_map_insert(s0, i as int, addr, b);
            }
        }
    }
}

proof fn lemma_map_update(s: Seq<(u32, u8)>, i: int, b: u8)
    requires
        sorted_by_addr(s),
        0 <= i < s.len(),
    ensures
        sorted_by_addr(s.update(i, (s[i].0, b))),
        seq_to_map(s.update(i, (s[i].0, b))) == seq_to_map(s).insert(s[i].0, b),
{
    let a = s[i].0;
    let t = s.update(i, (a, b));
    assert(sorted_by_addr(t));
    assert_maps_equal!(seq_to_map(t), seq_to_map(s).insert(a, b), k => {
        lemma_stm_contains(s, k);
        lemma_stm_contains(t, k);
        if k == a {
            lemma_stm_value(t, i);
        } else {
            if seq_to_map(s).dom().contains(k) {
                let j = choose|j: int| 0 <= j < s.len() && (#[trigger] s[j]).0 == k;
                assert(j != i);
                assert(t[j].0 == k);
                lemma_stm_value(s, j);
                lemma_stm_value(t, j);
            }
            if seq_to_map(t).dom().contains(k) {
                let j = choose|j: int| 0 <= j < t.len() && (#[trigger] t[j]).0 == k;
                assert(j != i);
                assert(s[j].0 == k);
                lemma_stm_value(s, j);
                lemma_stm_value(t, j);
            }
        }
    });
}

proof fn lemma_map_insert(s: Seq<(u32, u8)>, i: int, a: u32, b: u8)
    requires
        sorted_by_addr(s),
        0 <= i <= s.len(),
        forall|k: int| 0 <= k < i ==> (#[trigger] s[k]).0 < a,
        forall|k: int| i <= k < s.len() ==> (#[trigger] s[k]).0 > a,
    ensures
        sorted_by_addr(s.insert(i, (a, b))),
        seq_to_map(s.insert(i, (a, b))) == seq_to_map(s).insert(a, b),
        s.insert(i, (a, b)).len() == s.len() + 1,
{
    let t = s.insert(i, (a, b));
    assert forall|p: int, q: int| 0 <= p < q < t.len() implies (#[trigger] t[p]).0
        < (#[trigger] t[q]).0 by {
        if p < i {
            assert(t[p] == s[p]);
        } else if p > i {
            assert(t[p] == s[p - 1]);
        }
        if q < i {
            assert(t[q] == s[q]);
        } else if q > i {
            assert(t[q] == s[q - 1]);
        }
    }
    assert_maps_equal!(seq_to_map(t), seq_to_map(s).insert(a, b), k => {
        lemma_stm_contains(s, k);
        lemma_stm_contains(t, k);
        if k == a {
            assert(t[i] == (a, b));
            lemma_stm_value(t, i);
        } else {
            if seq_to_map(s).dom().contains(k) {
                let j = choose|j: int| 0 <= j < s.len() && (#[trigger] s[j]).0 == k;
                lemma_stm_value(s, j);
                if j < i {
                    assert(t[j] == s[j]);
                    lemma_stm_value(t, j);
                } else {
                    assert(t[j + 1] == s[j]);
                    lemma_stm_value(t, j + 1);
                }
            }
            if seq_to_map(t).dom().contains(k) {
                let j = choose|j: int| 0 <= j < t.len() && (#[trigger] t[j]).0 == k;
                if j < i {
                    assert(s[j].0 == k);
                    lemma_stm_value(s, j);
                    lemma_stm_value(t, j);
                } else {
                    assert(j != i);
                    assert(s[j - 1].0 == k);
                    lemma_stm_value(s, j - 1);
                    lemma_stm_value(t, j);
                }
            }
        }
    });
}

/// A maximal run of bytes at consecutive addresses.
#[derive(Debug)]
pub struct Block {
    pub base: u32,
    pub data: Vec<u8>,
}

/// The addressed bytes a block covers: `base, base + 1, ...` in order.
pub open spec fn block_pairs(b: Block) -> Seq<(u32, u8)> {
    Seq::new(b.data@.len(), |i: int| (((b.base + i) as u32), b.data@[i]))
}

/// The addressed bytes a block list covers, in order.
pub open spec fn blocks_pairs(bs: Seq<Block>) -> Seq<(u32, u8)>
    decreases bs.len(),
{
    if bs.len() == 0 {
        Seq::empty()
    } else {
        blocks_pairs(bs.drop_last()) + block_pairs(bs.last())
    }
}

/// Coalesces an image into maximal contiguous blocks. The blocks cover
/// exactly the image's bytes in ascending order, every block is
/// non-empty and free of address wrap-around, and consecutive blocks
/// are separated by at least one missing address (else they would have
/// merged).
pub fn image_to_blocks(image: &Image) -> (r: Vec<Block>)
    requires
        image.wf(),
    ensures
        blocks_pairs(r@) == image@,
        forall|k: int| 0 <= k < r@.len() ==> 1 <= (#[trigger] r@[k]).data@.len(),
        forall|k: int|
            0 <= k < r@.len() ==> (#[trigger] r@[k]).base + r@[k].data@.len() - 1 <= u32::MAX,
        forall|k: int|
            0 <= k < r@.len() - 1 ==> (#[trigger] r@[k]).base + r@[k].data@.len() < r@[
                k + 1].base,
{
    let n = image.len();
    let mut blocks: Vec<Block> = Vec::new();
    let mut cur_base: u32 = 0;
    let mut cur: Vec<u8> = Vec::new();
    let mut active = false;
    let mut i: usize = 0;
    while i < n
        invariant
            image.wf(),
            n == image@.len(),
            i <= n,
            active ==> i >= 1,
            !active ==> i == 0 && blocks@.len() == 0 && cur@.len() == 0,
            active ==> 1 <= cur@.len() && cur_base + cur@.len() - 1 == image@[i - 1].0,
            blocks_pairs(blocks@) + block_pairs(Block { base: cur_base, data: cur })
                =~= image@.take(i as int) || (!active && i == 0),
            !active ==> image@.take(i as int).len() == 0,
            forall|k: int| 0 <= k < blocks@.len() ==> 1 <= (#[trigger] blocks@[k]).data@.len(),
            forall|k: int|
                0 <= k < blocks@.len() ==> (#[trigger] blocks@[k]).base + blocks@[k].data@.len()
                    - 1 <= u32::MAX,
            forall|k: int|
                0 <= k < blocks@.len() - 1 ==> (#[trigger] blocks@[k]).base
                    + blocks@[k].data@.len() < blocks@[k + 1].base,
            active && blocks@.len() > 0 ==> blocks@.last().base + blocks@.last().data@.len()
                < cur_base,
        decreases n - i,
    {
        let (addr, byte) = image.entry(i);
        if !active {
            cur_base = addr;
            cur.push(byte);
            active = true;
            proof {
                assert(blocks_pairs(blocks@) =~= Seq::<(u32, u8)>::empty());
                assert(blocks_pairs(blocks@) + block_pairs(Block { base: cur_base, data: cur })
                    =~= image@.take(i + 1));
            }
        } else {
            proof {
                assert(image@[i - 1].0 < image@[i as int].0);
            }
            if (addr as u64) == (cur_base as u64) + (cur.len() as u64) {
                let ghost prev = Block { base: cur_base, data: cur };
                cur.push(byte);
                proof {
                    assert(block_pairs(Block { base: cur_base, data: cur }) =~= block_pairs(prev)
                        .push((addr, byte)));
                    assert(blocks_pairs(blocks@) + block_pairs(
                        Block { base: cur_base, data: cur },
                    ) =~= image@.take(i + 1));
                }
            } else {
                let done = Block { base: cur_base, data: cur };
                let ghost bs0 = blocks@;
                blocks.push(done);
                proof {
                    assert(blocks@.drop_last() =~= bs0);
                    assert(blocks_pairs(blocks@) =~= image@.take(i as int));
                }
                cur = Vec::new();
                cur.push(byte);
                cur_base = addr;
                proof {
                    assert(block_pairs(Block { base: cur_base, data: cur }) =~= seq![
                        (addr, byte),
                    ]);
                    assert(blocks_pairs(blocks@) + block_pairs(
                        Block { base: cur_base, data: cur },
                    ) =~= image@.take(i + 1));
                }
            }
        }
        i = i + 1;
    }
    if active {
        let done = Block { base: cur_base, data: cur };
        let ghost bs0 = blocks@;
        blocks.push(done);
        proof {
            assert(blocks@.drop_last() =~= bs0);
            assert(image@.take(n as int) =~= image@);
            assert(blocks_pairs(blocks@) =~= image@);
        }
    } else {
        proof {
            assert(image@.take(n as int) =~= image@);
            assert(blocks_pairs(blocks@) =~= Seq::<(u32, u8)>::empty());
            assert(image@.len() == 0);
            assert(blocks_pairs(blocks@) =~= image@);
        }
    }
    blocks
}

/// One write-memory transfer: a destination address and at most 256 bytes.
#[derive(Debug)]
pub struct Chunk {
    pub addr: u32,
    pub data: Vec<u8>,
}

/// The addressed bytes a chunk covers.
pub open spec fn chunk_pairs(c: Chunk) -> Seq<(u32, u8)> {
    Seq::new(c.data@.len(), |i: int| (((c.addr + i) as u32), c.data@[i]))
}

/// The addressed bytes a chunk list covers, in order.
pub open spec fn chunks_pairs(cs: Seq<Chunk>) -> Seq<(u32, u8)>
    decreases cs.len(),
{
    if cs.len() == 0 {
        Seq::empty()
    } else {
        chunks_pairs(cs.drop_last()) + chunk_pairs(cs.last())
    }
}

/// Splits blocks into write-memory chunks of at most 256 bytes each,
/// in stride order, covering exactly the same addressed bytes.
pub fn chunks_of_blocks(blocks: &Vec<Block>) -> (r: Vec<Chunk>)
    requires
        forall|k: int| 0 <= k < blocks@.len() ==> 1 <= (#[trigger] blocks@[k]).data@.len(),
        forall|k: int|
            0 <= k < blocks@.len() ==> (#[trigger] blocks@[k]).base + blocks@[k].data@.len() - 1
                <= u32::MAX,
        forall|k: int|
            0 <= k < blocks@.len() - 1 ==> (#[trigger] blocks@[k]).base + blocks@[k].data@.len()
                < blocks@[k + 1].base,
    ensures
        chunks_pairs(r@) == blocks_pairs(blocks@),
        forall|k: int|
            0 <= k < r@.len() ==> 1 <= (#[trigger] r@[k]).data@.len() <= 256,
        forall|k: int|
            0 <= k < r@.len() - 1 ==> ((#[trigger] r@[k + 1]).addr == r@[k].addr
                + r@[k].data@.len() ==> r@[k].data@.len() == 256),
{
    let mut out: Vec<Chunk> = Vec::new();
    let mut bi: usize = 0;
    while bi < blocks.len()
        invariant
            forall|k: int| 0 <= k < blocks@.len() ==> 1 <= (#[trigger] blocks@[k]).data@.len(),
            forall|k: int|
                0 <= k < blocks@.len() ==> (#[trigger] blocks@[k]).base + blocks@[k].data@.len()
                    - 1 <= u32::MAX,
            forall|k: int|
                0 <= k < blocks@.len() - 1 ==> (#[trigger] blocks@[k]).base
                    + blocks@[k].data@.len() < blocks@[k + 1].base,
            bi <= blocks@.len(),
            chunks_pairs(out@) =~= blocks_pairs(blocks@.take(bi as int)),
            forall|k: int| 0 <= k < out@.len() ==> 1 <= (#[trigger] out@[k]).data@.len() <= 256,
            forall|k: int|
                0 <= k < out@.len() - 1 ==> ((#[trigger] out@[k + 1]).addr == out@[k].addr
                    + out@[k].data@.len() ==> out@[k].data@.len() == 256),
            out@.len() > 0 ==> bi > 0 && out@.last().addr + out@.last().data@.len() == blocks@[
                bi - 1].base + blocks@[bi - 1].data@.len(),
        decreases blocks@.len() - bi,
    {
        let base = blocks[bi].base;
        let data = &blocks[bi].data;
        let mut offset: usize = 0;
        while offset < data.len()
            invariant
                forall|k: int| 0 <= k < blocks@.len() ==> 1 <= (#[trigger] blocks@[k]).data@.len(),
                forall|k: int|
                    0 <= k < blocks@.len() ==> (#[trigger] blocks@[k]).base
                        + blocks@[k].data@.len() - 1 <= u32::MAX,
                bi < blocks@.len(),
                base == blocks@[bi as int].base,
                data == blocks@[bi as int].data,
                offset <= data@.len(),
                base + data@.len() - 1 <= u32::MAX,
                chunks_pairs(out@) =~= blocks_pairs(blocks@.take(bi as int)) + block_pairs(
                    blocks@[bi as int],
                ).take(offset as int),
                forall|k: int| 0 <= k < out@.len() ==> 1 <= (#[trigger] out@[k]).data@.len() <= 256,
                forall|k: int|
                    0 <= k < blocks@.len() - 1 ==> (#[trigger] blocks@[k]).base
                        + blocks@[k].data@.len() < blocks@[k + 1].base,
                forall|k: int|
                    0 <= k < out@.len() - 1 ==> ((#[trigger] out@[k + 1]).addr == out@[k].addr
                        + out@[k].data@.len() ==> out@[k].data@.len() == 256),
                offset > 0 ==> out@.len() > 0 && out@.last().addr + out@.last().data@.len()
                    == base + offset,
                offset > 0 && offset < data@.len() ==> out@.last().data@.len() == 256,
                offset == 0 && out@.len() > 0 ==> bi > 0 && out@.last().addr
                    + out@.last().data@.len() == blocks@[bi - 1].base + blocks@[
                    bi - 1].data@.len(),
            decreases data@.len() - offset,
        {
            let end = if data.len() - offset > 256 {
                offset + 256
            } else {
                data.len()
            };
            let mut piece: Vec<u8> = Vec::new();
            let mut j: usize = offset;
            while j < end
                invariant
                    offset <= j <= end <= data@.len(),
                    piece@ =~= data@.subrange(offset as int, j as int),
                decreases end - j,
            {
                piece.push(data[j]);
                proof {
                    assert(data@.subrange(offset as int, j + 1) =~= data@.subrange(
                        offset as int,
                        j as int,
                    ).push(data@[j as int]));
                }
                j = j + 1;
            }
            let chunk = Chunk { addr: base + (offset as u32), data: piece };
            let ghost out0 = out@;
            out.push(chunk);
            proof {
                assert(out@.drop_last() =~= out0);
                assert(chunk_pairs(chunk) =~= block_pairs(blocks@[bi as int]).subrange(
                    offset as int,
                    end as int,
                ));
                assert(block_pairs(blocks@[bi as int]).take(end as int) =~= block_pairs(
                    blocks@[bi as int],
                ).take(offset as int) + block_pairs(blocks@[bi as int]).subrange(
                    offset as int,
                    end as int,
                ));
                assert(chunks_pairs(out@) =~= blocks_pairs(blocks@.take(bi as int)) + block_pairs(
                    blocks@[bi as int],
                ).take(end as int));
                assert(forall|k: int| 0 <= k < out0.len() ==> out@[k] == out0[k]);
                assert(out@.last() == chunk);
                if out0.len() > 0 {
                    if offset > 0 {
                        assert(out0.last().data@.len() == 256);
                    } else {
                        assert(out0.last().addr + out0.last().data@.len() < chunk.addr);
                    }
                }
                assert(forall|k: int|
                    0 <= k < out@.len() - 1 ==> ((#[trigger] out@[k + 1]).addr == out@[k].addr
                        + out@[k].data@.len() ==> out@[k].data@.len() == 256)) by {
                    assert(forall|k: int|
                        0 <= k < out0.len() - 1 ==> ((#[trigger] out0[k + 1]).addr == out0[
                            k].addr + out0[k].data@.len() ==> out0[k].data@.len() == 256));
                }
            }
            offset = end;
        }
        proof {
            assert(block_pairs(blocks@[bi as int]).take(data@.len() as int) =~= block_pairs(
                blocks@[bi as int],
            ));
            assert(blocks@.take(bi + 1).drop_last() =~= blocks@.take(bi as int));
            assert(blocks@.take(bi + 1).last() == blocks@[bi as int]);
            assert(blocks_pairs(blocks@.take(bi + 1)) =~= blocks_pairs(blocks@.take(bi as int))
                + block_pairs(blocks@[bi as int]));
        }
        bi = bi + 1;
    }
    proof {
        assert(blocks@.take(blocks@.len() as int) =~= blocks@);
        assert(chunks_pairs(out@) =~= blocks_pairs(blocks@));
    }
    out
}

} // verus!
