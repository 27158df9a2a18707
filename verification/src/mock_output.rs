//! A sink for testing output endpoints: collects every pushed buffer and
//! enforces nothing beyond a configured buffer-size hint.

use vstd::prelude::*;

verus! {

/// Collects output bytes for inspection by tests.
#[derive(Debug)]
pub struct MockOutputConsumer {
    pub data: Vec<u8>,
    pub max_buffer_size_bytes: usize,
}

impl Default for MockOutputConsumer {
    fn default() -> (r: MockOutputConsumer)
        ensures
            r.data@.len() == 0,
            r.max_buffer_size_bytes == usize::MAX,
    {
        MockOutputConsumer::new()
    }
}

impl MockOutputConsumer {
    pub fn new() -> (r: MockOutputConsumer)
        ensures
            r.data@.len() == 0,
            r.max_buffer_size_bytes == usize::MAX,
    {
        MockOutputConsumer::with_max_buffer_size_bytes(usize::MAX)
    }

    pub fn with_max_buffer_size_bytes(bytes: usize) -> (r: MockOutputConsumer)
        ensures
            r.data@.len() == 0,
            r.max_buffer_size_bytes == bytes,
    {
        MockOutputConsumer { data: Vec::new(), max_buffer_size_bytes: bytes }
    }

    /// The largest buffer the endpoint may hand over at once.
    pub fn max_buffer_size_bytes(&self) -> (r: usize)
        ensures
            r == self.max_buffer_size_bytes,
    {
        self.max_buffer_size_bytes
    }

    /// A new batch begins; nothing to record.
    pub fn batch_start(&mut self, _step: u64)
        ensures
            *final(self) == *old(self),
    {
    }

    /// Append one pushed buffer to the collected bytes.
    pub fn push_buffer(&mut self, buffer: &[u8])
        ensures
            final(self).data@ == old(self).data@ + buffer@,
            final(self).max_buffer_size_bytes == old(self).max_buffer_size_bytes,
    {
        let n = buffer.len();
        let mut i: usize = 0;
        while i < n
            invariant
                n == buffer@.len(),
                0 <= i <= n,
                self.max_buffer_size_bytes == old(self).max_buffer_size_bytes,
                self.data@ == old(self).data@ + buffer@.take(i as int),
            decreases n - i,
        {
            let ghost pre = self.data@;
            self.data.push(buffer[i]);
            proof {
                assert(self.data@ =~= old(self).data@ + buffer@.take(i + 1));
            }
            i = i + 1;
        }
        proof {
            assert(buffer@.take(n as int) =~= buffer@);
        }
    }

    /// The batch ended; nothing to record.
    pub fn batch_end(&mut self)
        ensures
            *final(self) == *old(self),
    {
    }
}

} // verus!
