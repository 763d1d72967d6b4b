//! The I/O boundary: an output queue that an outside shell drains to a
//! device, and an input queue it fills.
use vstd::prelude::*;
use crate::bytes::push_char;

verus! {

/// Buffered input and output bytes.
pub struct IO {
    pub in_buffer: Vec<u8>,
    pub out_buffer: Vec<u8>,
}

impl IO {
    /// Empty queues.
    pub fn new() -> (r: IO)
        ensures
            r.in_buffer@ == Seq::<u8>::empty(),
            r.out_buffer@ == Seq::<u8>::empty(),
    {
        IO { in_buffer: Vec::new(), out_buffer: Vec::new() }
    }

    /// Appends `data` to the output queue.
    pub fn write(&mut self, data: &[u8])
        ensures
            final(self).out_buffer@ == old(self).out_buffer@ + data@,
            final(self).in_buffer@ == old(self).in_buffer@,
    {
        let mut i: usize = 0;
        while i < data.len()
            invariant
                i <= data@.len(),
                self.out_buffer@ == old(self).out_buffer@ + data@.subrange(0, i as int),
                self.in_buffer@ == old(self).in_buffer@,
            decreases data@.len() - i,
        {
            self.out_buffer.push(data[i]);
            i = i + 1;
            assert(self.out_buffer@ =~= old(self).out_buffer@ + data@.subrange(0, i as int));
        }
        assert(data@.subrange(0, data@.len() as int) =~= data@);
    }

    /// Takes the first `size` bytes of the input queue. Fails, taking
    /// nothing, where fewer are buffered: running short is an error, not a
    /// wait.
    pub fn read(&mut self, size: usize) -> (r: Result<Vec<u8>, ()>)
        ensures
            r is Ok <==> size <= old(self).in_buffer@.len(),
            r matches Ok(v) ==> {
                &&& v@ == old(self).in_buffer@.subrange(0, size as int)
                &&& final(self).in_buffer@ == old(self).in_buffer@.subrange(size as int, old(self).in_buffer@.len() as int)
            },
            r is Err ==> final(self).in_buffer@ == old(self).in_buffer@,
            final(self).out_buffer@ == old(self).out_buffer@,
    {
        if size > self.in_buffer.len() {
            return Err(());
        }
        let mut taken: Vec<u8> = Vec::new();
        let mut rest: Vec<u8> = Vec::new();
        let n = self.in_buffer.len();
        let mut i: usize = 0;
        while i < n
            invariant
                n == self.in_buffer@.len(),
                size <= n,
                i <= n,
                self.in_buffer@ == old(self).in_buffer@,
                self.out_buffer@ == old(self).out_buffer@,
                i <= size ==> taken@ == self.in_buffer@.subrange(0, i as int) && rest@.len() == 0,
                i > size ==> taken@ == self.in_buffer@.subrange(0, size as int) && rest@ == self.in_buffer@.subrange(size as int, i as int),
            decreases n - i,
        {
            if i < size {
                taken.push(self.in_buffer[i]);
            } else {
                rest.push(self.in_buffer[i]);
            }
            i = i + 1;
            assert(i <= size ==> taken@ =~= self.in_buffer@.subrange(0, i as int));
            assert(i > size ==> rest@ =~= self.in_buffer@.subrange(size as int, i as int));
        }
        self.in_buffer = rest;
        assert(self.in_buffer@ =~= old(self).in_buffer@.subrange(size as int, old(self).in_buffer@.len() as int));
        Ok(taken)
    }

    /// Takes the input queue up to the first `delim`, which is consumed and
    /// not returned.
    pub fn read_until(&mut self, delim: u8) -> (r: Vec<u8>)
        requires
            old(self).in_buffer@.contains(delim),
        ensures
            !r@.contains(delim),
            old(self).in_buffer@ == r@ + seq![delim] + final(self).in_buffer@,
            final(self).out_buffer@ == old(self).out_buffer@,
    {
        let n = self.in_buffer.len();
        let mut k: usize = 0;
        while self.in_buffer[k] != delim
            invariant
                n == self.in_buffer@.len(),
                self.in_buffer@ == old(self).in_buffer@,
                self.in_buffer@.contains(delim),
                k < n,
                forall|j: int| 0 <= j < k ==> self.in_buffer@[j] != delim,
            decreases n - k,
        {
            proof {
                let w = choose|w: int| 0 <= w < self.in_buffer@.len() && self.in_buffer@[w] == delim;
                assert(w > k);
            }
            k = k + 1;
        }
        let r = match self.read(k) {
            Ok(v) => v,
            Err(()) => Vec::new(),
        };
        let _ = self.read(1);
        proof {
            assert(old(self).in_buffer@ =~= r@ + seq![delim] + self.in_buffer@);
            assert forall|j: int| 0 <= j < r@.len() implies r@[j] != delim by {
                assert(r@[j] == old(self).in_buffer@[j]);
            }
        }
        r
    }

    /// Takes the input queue up to the first newline, which is consumed and
    /// not returned; each byte becomes the char with that code.
    pub fn read_line(&mut self) -> (r: String)
        requires
            old(self).in_buffer@.contains(10u8),
        ensures
            ({
                let line = old(self).in_buffer@.subrange(0, r@.len() as int);
                &&& !line.contains(10u8)
                &&& old(self).in_buffer@ == line + seq![10u8] + final(self).in_buffer@
                &&& r@ == line.map_values(|b: u8| b as char)
            }),
            final(self).out_buffer@ == old(self).out_buffer@,
    {
        let bytes = self.read_until(10u8);
        let mut s = String::new();
        let mut i: usize = 0;
        while i < bytes.len()
            invariant
                i <= bytes@.len(),
                s@ == bytes@.subrange(0, i as int).map_values(|b: u8| b as char),
            decreases bytes@.len() - i,
        {
            let c = bytes[i] as char;
            push_char(&mut s, c);
            i = i + 1;
            assert(s@ =~= bytes@.subrange(0, i as int).map_values(|b: u8| b as char));
        }
        proof {
            assert(bytes@.subrange(0, bytes@.len() as int) =~= bytes@);
            assert(old(self).in_buffer@.subrange(0, s@.len() as int) =~= bytes@);
        }
        s
    }

    /// Hands over the output queue and leaves it empty.
    pub fn take_output(&mut self) -> (r: Vec<u8>)
        ensures
            r@ == old(self).out_buffer@,
            final(self).out_buffer@ == Seq::<u8>::empty(),
            final(self).in_buffer@ == old(self).in_buffer@,
    {
        let mut out: Vec<u8> = Vec::new();
        std::mem::swap(&mut out, &mut self.out_buffer);
        out
    }
}

impl Default for IO {
    fn default() -> (r: Self)
        ensures
            r.in_buffer@ == Seq::<u8>::empty(),
            r.out_buffer@ == Seq::<u8>::empty(),
    {
        Self::new()
    }
}

} // verus!
