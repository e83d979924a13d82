//! A deque of bytes as a reader, which hands out bytes from the front, and
//! as a writer, which appends bytes at the back.
use vstd::prelude::*;
use crate::deque::LinearDeque;
use crate::layout::reserve_fits;

verus! {

/// `std::io::Error`, the error type of `std::io` results, declared so that
/// it can stand in the result types of `read` and `write`. Neither ever
/// returns one, and nothing here looks inside it.
#[verifier::external_type_specification]
#[verifier::external_body]
pub struct ExIoError(std::io::Error);

impl LinearDeque<u8> {
    /// Whether room for `count` more bytes can be made without the capacity
    /// leaving `usize`.
    fn room_fits(&self, count: usize) -> (r: bool)
        ensures
            r == reserve_fits(self.front_room(), self@.len(), self.back_room(), count as nat),
    {
        let front = self.reserved_front_space();
        let back = self.reserved_back_space();
        let len = self.as_slice().len();
        let cap = self.cap();
        if front + back >= count {
            return true;
        }
        let growth = if len > 1 { len } else { 1 };
        if count - (front + back) > growth {
            len <= usize::MAX - count
        } else {
            cap <= usize::MAX - growth
        }
    }
}

impl std::io::Read for LinearDeque<u8> {
    /// Moves the first bytes of the deque, as many as `buf` holds, into the
    /// front of `buf` and removes them from the deque; their slots join the
    /// reserved front space.
    fn read(&mut self, buf: &mut [u8]) -> (r: std::io::Result<usize>)
        ensures
            ({
                let n = if old(self)@.len() < old(buf)@.len() { old(self)@.len() } else { old(buf)@.len() };
                &&& r == Ok::<usize, std::io::Error>(n as usize)
                &&& final(buf)@ == old(self)@.take(n as int) + old(buf)@.skip(n as int)
                &&& final(self)@ == old(self)@.skip(n as int)
                &&& final(self).spec_cap() == old(self).spec_cap()
                &&& final(self).front_room() == old(self).front_room() + n
                &&& final(self).back_room() == old(self).back_room()
            }),
    {
        let len = self.as_slice().len();
        let n = if len < buf.len() { len } else { buf.len() };
        let ghost start_buf = buf@;
        let mut i: usize = 0;
        while i < n
            invariant
                0 <= i <= n,
                n <= self@.len(),
                n <= start_buf.len(),
                buf@.len() == start_buf.len(),
                self@ == old(self)@,
                forall|j: int| 0 <= j < i ==> buf@[j] == self@[j],
                forall|j: int| i <= j < start_buf.len() ==> buf@[j] == start_buf[j],
            decreases n - i,
        {
            let byte = self.as_slice()[i];
            buf[i] = byte;
            i = i + 1;
        }
        proof {
            assert(buf@ =~= old(self)@.take(n as int) + start_buf.skip(n as int));
        }
        self.truncate_at_front(len - n);
        proof {
            if n == 0 {
                assert(old(self)@.skip(0) =~= old(self)@);
            } else {
                assert(old(self)@.subrange(n as int, len as int) =~= old(self)@.skip(n as int));
            }
        }
        Ok(n)
    }
}

impl std::io::Write for LinearDeque<u8> {
    /// Appends all of `buf` at the back, as `extend_at_back` does, and
    /// reports its whole length as written. When the buffer needed for that
    /// would have more slots than `usize` counts, nothing is written and
    /// `Ok(0)` is returned.
    fn write(&mut self, buf: &[u8]) -> (r: std::io::Result<usize>)
        ensures
            old(self).can_reserve(buf@.len()) && buf@.len() < usize::MAX ==> {
                &&& r == Ok::<usize, std::io::Error>(buf@.len() as usize)
                &&& final(self)@ == old(self)@ + buf@
                &&& final(self).front_room() == old(self).after_reserve_back(buf@.len()).0
                &&& final(self).back_room() + buf@.len() == old(self).after_reserve_back(buf@.len()).1
            },
            !(old(self).can_reserve(buf@.len()) && buf@.len() < usize::MAX) ==> {
                &&& r == Ok::<usize, std::io::Error>(0)
                &&& final(self).same_as(old(self))
            },
    {
        let n = buf.len();
        if n < usize::MAX && self.room_fits(n) {
            self.extend_at_back(vstd::slice::slice_to_vec(buf));
            Ok(n)
        } else {
            Ok(0)
        }
    }

    /// Nothing is buffered on the way in, so there is nothing to flush.
    fn flush(&mut self) -> (r: std::io::Result<()>)
        ensures
            r == Ok::<(), std::io::Error>(()),
            final(self).same_as(old(self)),
    {
        Ok(())
    }
}

} // verus!
