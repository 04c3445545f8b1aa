use vstd::prelude::*;

verus! {

/// A buffer of bytes of a fixed length, owned by the value: each clone holds
/// its own copy of the bytes. Its view is its bytes.
#[derive(Debug)]
pub struct ArcBuffer {
    bytes: Vec<u8>,
}

impl View for ArcBuffer {
    type V = Seq<u8>;

    closed spec fn view(&self) -> Seq<u8> {
        self.bytes@
    }
}

/// The longest buffer that can be made: its length and a header of one
/// `usize`, rounded up to the alignment of `usize`, must not pass `isize::MAX`.
pub open spec fn max_length() -> int {
    isize::MAX - 2 * (usize::BITS / 8) + 1
}

impl ArcBuffer {
    /// A buffer of `length` bytes, each zero.
    pub fn new(length: usize) -> (res: Self)
        requires
            length <= max_length(),
        ensures
            res@ == Seq::new(length as nat, |_i: int| 0u8),
    {
        let mut bytes: Vec<u8> = Vec::new();
        while bytes.len() < length
            invariant
                bytes.len() <= length,
                forall|i: int| 0 <= i < bytes.len() ==> bytes@[i] == 0u8,
            decreases length - bytes.len(),
        {
            bytes.push(0u8);
        }
        let res = Self { bytes };
        assert(res@ =~= Seq::new(length as nat, |_i: int| 0u8));
        res
    }

    /// The bytes of the buffer.
    pub fn as_slice(&self) -> (res: &[u8])
        ensures
            res@ == self@,
    {
        self.bytes.as_slice()
    }

    /// The bytes of the buffer, to be written in place: what is written
    /// through the slice is what the buffer holds afterwards.
    pub fn as_slice_mut(&mut self) -> (res: &mut [u8])
        ensures
            res@ == old(self)@,
            final(self)@ == final(res)@,
    {
        self.bytes.as_mut_slice()
    }
}

/// The empty buffer.
impl Default for ArcBuffer {
    fn default() -> (res: Self)
        ensures
            res@ == Seq::<u8>::empty(),
    {
        Self::new(0)
    }
}

/// A buffer with the same bytes.
impl Clone for ArcBuffer {
    fn clone(&self) -> (res: Self)
        ensures
            res@ == self@,
    {
        let res = Self { bytes: self.bytes.clone() };
        assert(res@ =~= self@);
        res
    }
}

/// A buffer holding a copy of the bytes.
impl<'a> From<&'a [u8]> for ArcBuffer {
    fn from(slice: &'a [u8]) -> (res: Self)
        ensures
            res@ == slice@,
    {
        let mut bytes: Vec<u8> = Vec::new();
        let mut i: usize = 0;
        while i < slice.len()
            invariant
                i <= slice@.len(),
                bytes@ == slice@.take(i as int),
            decreases slice@.len() - i,
        {
            bytes.push(slice[i]);
            assert(slice@.take(i + 1) =~= slice@.take(i as int).push(slice@[i as int]));
            i = i + 1;
        }
        assert(slice@.take(i as int) =~= slice@);
        Self { bytes }
    }
}

/// Buffers with equal bytes are not known to be equal values, so no spec
/// function of the bytes can give the result of `from`; `from` carries its
/// own postcondition instead.
impl<'a> vstd::std_specs::convert::FromSpecImpl<&'a [u8]> for ArcBuffer {
    open spec fn obeys_from_spec() -> bool {
        false
    }

    open spec fn from_spec(v: &'a [u8]) -> Self {
        choose|b: ArcBuffer| b@ == v@
    }
}

} // verus!
