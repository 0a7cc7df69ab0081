use crate::options::append_bytes;
use std::collections::VecDeque;
use vstd::prelude::*;
use vstd::slice::slice_subrange;
use vstd::slice::slice_to_vec;

verus! {

/// The bytes of `frames`, one frame after the other.
pub open spec fn spec_join(frames: Seq<Seq<u8>>) -> Seq<u8>
    decreases frames.len(),
{
    if frames.len() == 0 {
        Seq::<u8>::empty()
    } else {
        spec_join(frames.drop_last()) + frames.last()
    }
}

/// The `index`-th piece of `data` cut into pieces of `chunk` bytes; the
/// piece at the end of `data` is as long as what is left.
pub open spec fn spec_chunk(data: Seq<u8>, chunk: int, index: int) -> Seq<u8> {
    let from = index * chunk;
    let to = if from + chunk <= data.len() {
        from + chunk
    } else {
        data.len() as int
    };
    if 0 <= from <= to {
        data.subrange(from, to)
    } else {
        Seq::<u8>::empty()
    }
}

/// The frames that reading `data` adds to a window with `slots` free slots
/// of `chunk` bytes each. Data that fills every slot gives that many full
/// frames. Shorter data gives its full frames and then one short frame,
/// which is empty when the data ends on a frame boundary.
pub open spec fn spec_frames_of(data: Seq<u8>, chunk: int, slots: int) -> Seq<Seq<u8>> {
    let count: int = if data.len() == slots * chunk {
        slots
    } else {
        data.len() as int / chunk + 1
    };
    Seq::new(count as nat, |i: int| spec_chunk(data, chunk, i))
}

/// A buffer of up to `size` frames of at most `chunk_size` bytes that
/// stands between a file and the socket.
pub struct Window {
    elements: VecDeque<Vec<u8>>,
    size: u16,
    chunk_size: u16,
}

impl Window {
    /// The buffered frames, oldest first.
    pub closed spec fn frames(&self) -> Seq<Seq<u8>> {
        Seq::new(self.elements@.len(), |i: int| self.elements@[i]@)
    }

    /// The number of frames the window can hold.
    pub closed spec fn spec_size(&self) -> u16 {
        self.size
    }

    /// The number of bytes of a full frame.
    pub closed spec fn spec_chunk_size(&self) -> u16 {
        self.chunk_size
    }

    /// Whether the window holds no more frames than it can.
    pub open spec fn wf(&self) -> bool {
        self.frames().len() <= self.spec_size()
    }

    /// The number of bytes that fill the free slots of the window.
    pub open spec fn spec_room(&self) -> int {
        (self.spec_size() - self.frames().len()) * self.spec_chunk_size()
    }

    /// An empty window of `size` frames of `chunk_size` bytes.
    pub fn new(size: u16, chunk_size: u16) -> (r: Window)
        ensures
            r.wf(),
            r.frames() == Seq::<Seq<u8>>::empty(),
            r.spec_size() == size,
            r.spec_chunk_size() == chunk_size,
    {
        let r = Window { elements: VecDeque::new(), size, chunk_size };
        assert(r.frames() =~= Seq::<Seq<u8>>::empty());
        r
    }

    /// The number of bytes to read from the file for the next `fill`: as
    /// many as fill the free slots.
    pub fn room(&self) -> (r: u64)
        requires
            self.wf(),
        ensures
            r == self.spec_room(),
    {
        let slots: u64 = (self.size - self.len()) as u64;
        assert(slots * self.chunk_size <= 0xffff * 0xffff) by (nonlinear_arith)
            requires
                slots <= 0xffff,
                self.chunk_size <= 0xffff,
        ;
        slots * self.chunk_size as u64
    }

    /// Cuts `data`, the bytes read from the file for the free slots, into
    /// frames and appends them. Returns whether more data may follow:
    /// `true` when the data filled every free slot, `false` when it ran
    /// short, in which case the last frame added is the short one.
    /// Data longer than the free slots is refused and the window is left
    /// as it was.
    pub fn fill(&mut self, data: &[u8]) -> (r: Result<bool, &'static str>)
        requires
            old(self).wf(),
        ensures
            final(self).wf(),
            final(self).spec_size() == old(self).spec_size(),
            final(self).spec_chunk_size() == old(self).spec_chunk_size(),
            r is Err <==> data@.len() > old(self).spec_room(),
            r matches Err(text) ==> text@ == "more data than the window has room for"@,
            r is Err ==> final(self).frames() == old(self).frames(),
            r matches Ok(more) ==> {
                &&& more == (data@.len() == old(self).spec_room())
                &&& final(self).frames() == old(self).frames() + spec_frames_of(
                    data@,
                    old(self).spec_chunk_size() as int,
                    old(self).spec_size() - old(self).frames().len(),
                )
            },
    {
        let room: u64 = self.room();
        if data.len() as u64 > room {
            return Err("more data than the window has room for");
        }
        let full: bool = data.len() as u64 == room;
        let slots: u16 = self.size - self.len();
        let chunk: usize = self.chunk_size as usize;
        let ghost added = spec_frames_of(data@, chunk as int, slots as int);
        let ghost before = self.frames();
        proof {
            assert(slots * chunk <= 0xffff * 0xffff) by (nonlinear_arith)
                requires
                    0 <= slots <= 0xffff,
                    0 <= chunk <= 0xffff,
            ;
            if !full {
                assert(chunk > 0) by (nonlinear_arith)
                    requires
                        data@.len() < slots * chunk,
                ;
                assert(data@.len() as int / (chunk as int) < slots) by (nonlinear_arith)
                    requires
                        data@.len() < slots * chunk,
                        chunk > 0,
                ;
            }
            assert(self.frames() =~= before + added.subrange(0, 0));
        }
        let count: usize = if full {
            slots as usize
        } else {
            data.len() / chunk + 1
        };
        let mut i: usize = 0;
        while i < count
            invariant
                i <= count <= slots,
                count == added.len(),
                data@.len() <= 0xffff * 0xffff,
                added == spec_frames_of(data@, chunk as int, slots as int),
                chunk == self.chunk_size,
                self.size == old(self).size,
                self.chunk_size == old(self).chunk_size,
                before.len() + slots == self.size,
                full ==> data@.len() == slots * chunk,
                !full ==> chunk > 0 && count == data@.len() as int / (chunk as int) + 1,
                self.frames() == before + added.subrange(0, i as int),
            decreases count - i,
        {
            assert(0 <= i * chunk <= data@.len()) by (nonlinear_arith)
                requires
                    0 <= i < count,
                    0 <= chunk,
                    full ==> count <= slots && data@.len() == slots * chunk,
                    !full ==> chunk > 0 && count == data@.len() as int / (chunk as int) + 1,
            ;
            assert(full ==> (i + 1) * chunk <= data@.len()) by (nonlinear_arith)
                requires
                    0 <= i < count,
                    0 <= chunk,
                    full ==> count <= slots && data@.len() == slots * chunk,
            ;
            let from: usize = i * chunk;
            let to: usize = if data.len() - from >= chunk {
                from + chunk
            } else {
                data.len()
            };
            let frame = slice_to_vec(slice_subrange(data, from, to));
            assert(frame@ == spec_chunk(data@, chunk as int, i as int));
            let ghost held = self.frames();
            self.elements.push_back(frame);
            proof {
                assert(self.frames() =~= held.push(frame@));
                assert(added.subrange(0, i + 1) =~= added.subrange(0, i as int).push(added[i as int]));
                assert(self.frames() =~= before + added.subrange(0, i + 1));
            }
            i += 1;
        }
        assert(added.subrange(0, count as int) =~= added);
        Ok(full)
    }

    /// Takes every buffered frame out of the window and returns their
    /// bytes in order: what is to be written to the file.
    pub fn empty(&mut self) -> (r: Vec<u8>)
        ensures
            final(self).wf(),
            final(self).spec_size() == old(self).spec_size(),
            final(self).spec_chunk_size() == old(self).spec_chunk_size(),
            final(self).frames() == Seq::<Seq<u8>>::empty(),
            r@ == spec_join(old(self).frames()),
    {
        let mut out: Vec<u8> = Vec::new();
        let n: usize = self.elements.len();
        let mut i: usize = 0;
        assert(self.frames().subrange(0, 0) =~= Seq::<Seq<u8>>::empty());
        while i < n
            invariant
                i <= n,
                n == self.elements@.len(),
                self == old(self),
                out@ == spec_join(self.frames().subrange(0, i as int)),
            decreases n - i,
        {
            let ghost done = self.frames().subrange(0, i as int);
            let ghost next = self.frames().subrange(0, i + 1);
            append_bytes(&mut out, self.elements[i].as_slice());
            proof {
                assert(next.drop_last() =~= done);
                assert(next.last() == self.elements@[i as int]@);
            }
            i += 1;
        }
        assert(self.frames().subrange(0, n as int) =~= self.frames());
        self.elements.clear();
        assert(self.frames() =~= Seq::<Seq<u8>>::empty());
        out
    }

    /// Drops the first `amount` frames. An amount larger than the number
    /// of buffered frames is refused and the window is left as it was.
    pub fn remove(&mut self, amount: u16) -> (r: Result<(), &'static str>)
        requires
            old(self).wf(),
        ensures
            final(self).wf(),
            final(self).spec_size() == old(self).spec_size(),
            final(self).spec_chunk_size() == old(self).spec_chunk_size(),
            r is Err <==> amount > old(self).frames().len(),
            r matches Err(text) ==> text@ == "amount cannot be larger than length of window"@,
            r is Err ==> final(self).frames() == old(self).frames(),
            r is Ok ==> final(self).frames() == old(self).frames().subrange(
                amount as int,
                old(self).frames().len() as int,
            ),
    {
        if amount > self.len() {
            return Err("amount cannot be larger than length of window");
        }
        let ghost before = self.frames();
        let mut i: u16 = 0;
        assert(self.frames() =~= before.subrange(0, before.len() as int));
        while i < amount
            invariant
                i <= amount <= before.len(),
                self.size == old(self).size,
                self.chunk_size == old(self).chunk_size,
                self.frames() == before.subrange(i as int, before.len() as int),
            decreases amount - i,
        {
            let ghost held = self.frames();
            let dropped = self.elements.pop_front();
            assert(self.frames() =~= held.subrange(1, held.len() as int));
            assert(self.frames() =~= before.subrange(i + 1, before.len() as int));
            i += 1;
        }
        Ok(())
    }

    /// Appends a received frame. A full window refuses it and is left as
    /// it was.
    pub fn add(&mut self, data: Vec<u8>) -> (r: Result<(), &'static str>)
        requires
            old(self).wf(),
        ensures
            final(self).wf(),
            final(self).spec_size() == old(self).spec_size(),
            final(self).spec_chunk_size() == old(self).spec_chunk_size(),
            r is Err <==> old(self).frames().len() == old(self).spec_size(),
            r matches Err(text) ==> text@ == "cannot add to a full window"@,
            r is Err ==> final(self).frames() == old(self).frames(),
            r is Ok ==> final(self).frames() == old(self).frames().push(data@),
    {
        if self.len() == self.size {
            return Err("cannot add to a full window");
        }
        let ghost held = self.frames();
        self.elements.push_back(data);
        assert(self.frames() =~= held.push(data@));
        Ok(())
    }

    /// The buffered frames, oldest first.
    pub fn get_elements(&self) -> (r: &VecDeque<Vec<u8>>)
        ensures
            r@.len() == self.frames().len(),
            forall|i: int| 0 <= i < r@.len() ==> (#[trigger] r@[i])@ == self.frames()[i],
    {
        &self.elements
    }

    /// The frame at `index`, if there is one.
    pub fn get(&self, index: u16) -> (r: Option<&Vec<u8>>)
        ensures
            match r {
                Some(frame) => index < self.frames().len() && frame@ == self.frames()[index as int],
                None => index >= self.frames().len(),
            },
    {
        if (index as usize) < self.elements.len() {
            Some(&self.elements[index as usize])
        } else {
            None
        }
    }

    /// The number of buffered frames.
    pub fn len(&self) -> (r: u16)
        requires
            self.wf(),
        ensures
            r == self.frames().len(),
    {
        self.elements.len() as u16
    }

    /// Whether the window holds no frame.
    pub fn is_empty(&self) -> (r: bool)
        ensures
            r == (self.frames().len() == 0),
    {
        self.elements.len() == 0
    }

    /// Whether the window holds as many frames as it can.
    pub fn is_full(&self) -> (r: bool)
        ensures
            r == (self.frames().len() == self.spec_size()),
    {
        self.elements.len() == self.size as usize
    }
}

} // verus!
