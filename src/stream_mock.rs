//! A stand-in for the encrypted stream: what the broker would send, and what
//! was written to it.

use vstd::prelude::*;

verus! {

#[derive(Debug)]
pub struct StreamMock {
    pub in_buffer: String,
    pub out_buffer: String,
}

impl StreamMock {
    pub fn new() -> (r: StreamMock)
        ensures
            r.in_buffer@.len() == 0,
            r.out_buffer@.len() == 0,
    {
        StreamMock { in_buffer: String::new(), out_buffer: String::new() }
    }

    /// Makes `message` readable, after what is readable already.
    pub fn receive(&mut self, message: &str)
        ensures
            final(self).in_buffer@ == old(self).in_buffer@ + message@,
            final(self).out_buffer == old(self).out_buffer,
    {
        self.in_buffer.append(message);
    }

    /// Records `message` as written.
    pub fn write(&mut self, message: &str)
        ensures
            final(self).out_buffer@ == old(self).out_buffer@ + message@,
            final(self).in_buffer == old(self).in_buffer,
    {
        self.out_buffer.append(message);
    }
}

} // verus!
