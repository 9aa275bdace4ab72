use vstd::prelude::*;

use vstd::string::StringExecFns;
use vstd::utf8::encode_utf8;

verus! {

/// `encode_utf8` distributes over concatenation: a string's bytes are the
/// bytes of its parts.
proof fn lemma_encode_utf8_concat(a: Seq<char>, b: Seq<char>)
    ensures
        encode_utf8(a + b) == encode_utf8(a) + encode_utf8(b),
    decreases a.len(),
{
    if a.len() == 0 {
        assert(a + b =~= b);
        assert(encode_utf8(a) =~= Seq::<u8>::empty());
        assert(encode_utf8(a) + encode_utf8(b) =~= encode_utf8(b));
    } else {
        assert((a + b)[0] == a[0]);
        assert((a + b).drop_first() =~= a.drop_first() + b);
        lemma_encode_utf8_concat(a.drop_first(), b);
        assert(encode_utf8(a + b) =~= encode_utf8(a) + encode_utf8(b));
    }
}

/// A reusable text buffer with a fixed byte capacity `N`: pieces are
/// written to the end until the capacity would overflow, and the buffer
/// is cleared and refilled frame after frame.
pub struct StringFormatter<const N: usize> {
    buf: String,
}

impl<const N: usize> Default for StringFormatter<N> {
    fn default() -> (r: Self)
        ensures
            r.wf(),
            r.contents() == Seq::<char>::empty(),
    {
        Self::new()
    }
}

impl<const N: usize> StringFormatter<N> {
    /// The text written so far.
    pub closed spec fn contents(self) -> Seq<char> {
        self.buf@
    }

    /// How many bytes the text occupies in UTF-8.
    pub open spec fn byte_len(self) -> nat {
        encode_utf8(self.contents()).len()
    }

    /// The text never outgrows the capacity.
    pub open spec fn wf(self) -> bool {
        self.byte_len() <= N
    }

    /// An empty buffer.
    pub fn new() -> (r: Self)
        ensures
            r.wf(),
            r.contents() == Seq::<char>::empty(),
    {
        let r = StringFormatter { buf: String::new() };
        proof {
            assert(encode_utf8(r.buf@) =~= Seq::<u8>::empty());
        }
        r
    }

    /// Empties the buffer for reuse.
    pub fn clear(&mut self)
        ensures
            final(self).wf(),
            final(self).contents() == Seq::<char>::empty(),
    {
        self.buf = String::new();
        proof {
            assert(encode_utf8(self.buf@) =~= Seq::<u8>::empty());
        }
    }

    /// Appends `s` when it fits in the remaining capacity; a piece that
    /// would overflow is refused whole and the buffer is unchanged.
    pub fn write_str(&mut self, s: &str) -> (r: Result<(), ()>)
        requires
            old(self).wf(),
            encode_utf8(s@).len() <= usize::MAX,
        ensures
            final(self).wf(),
            if old(self).byte_len() + encode_utf8(s@).len() <= N {
                &&& r is Ok
                &&& final(self).contents() == old(self).contents() + s@
            } else {
                &&& r is Err
                &&& final(self).contents() == old(self).contents()
            },
    {
        let used: usize = self.buf.as_str().len();
        let incoming: usize = s.len();
        if incoming > N || used > N - incoming {
            Err(())
        } else {
            proof {
                lemma_encode_utf8_concat(self.buf@, s@);
            }
            self.buf.append(s);
            Ok(())
        }
    }

    /// The text written so far.
    pub fn as_str(&self) -> (r: &str)
        ensures
            r@ == self.contents(),
    {
        self.buf.as_str()
    }
}

} // verus!
