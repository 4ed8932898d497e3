//! Values turned into bytes and back.

use vstd::prelude::*;

verus! {

/// A value that can be written as bytes and read back.
pub trait Encode: Sized {
    /// The bytes a value is written as.
    spec fn encoding(&self) -> Seq<u8>;

    fn to_bytes(&self) -> (r: Vec<u8>)
        ensures
            r@ == self.encoding(),
    ;

    /// What reading `data` gives: a value, or `Err(())`.
    spec fn decoding(data: Seq<u8>) -> Result<Self, ()>;

    /// The value written as `data`, or `Err(())` when `data` is not the
    /// encoding of a value.
    fn from_bytes(data: Vec<u8>) -> (r: Result<Self, ()>)
        ensures
            r == Self::decoding(data@),
            r matches Ok(v) ==> v.encoding() == data@,
    ;
}

impl Encode for u8 {
    /// A byte is written as itself.
    open spec fn encoding(&self) -> Seq<u8> {
        seq![*self]
    }

    fn to_bytes(&self) -> (r: Vec<u8>) {
        let mut v: Vec<u8> = Vec::new();
        v.push(*self);
        assert(v@ =~= seq![*self]);
        v
    }

    /// A single byte reads as that byte; any other bytes read as `Err(())`.
    open spec fn decoding(data: Seq<u8>) -> Result<u8, ()> {
        if data.len() == 1 {
            Ok(data[0])
        } else {
            Err(())
        }
    }

    /// Exactly one byte reads as itself; anything else is refused.
    fn from_bytes(data: Vec<u8>) -> (r: Result<u8, ()>)
        ensures
            data@.len() == 1 ==> r == Ok::<u8, ()>(data@[0]),
            data@.len() != 1 ==> r is Err,
    {
        if data.len() == 1 {
            let b = data[0];
            assert(seq![b] =~= data@);
            Ok(b)
        } else {
            Err(())
        }
    }
}

/// The bytes of an encoded value.
pub struct Encoded {
    data: Vec<u8>,
}

impl View for Encoded {
    type V = Seq<u8>;

    closed spec fn view(&self) -> Seq<u8> {
        self.data@
    }
}

impl Encoded {
    /// The bytes of `d`.
    pub fn encoded<T: Sized + Encode>(d: T) -> (r: Self)
        ensures
            r@ == d.encoding(),
    {
        Self { data: d.to_bytes() }
    }

    /// The value the bytes encode, if they encode one.
    pub fn decode<T: Sized + Encode>(self) -> (r: Result<T, ()>)
        ensures
            r == T::decoding(self@),
            r matches Ok(v) ==> v.encoding() == self@,
    {
        T::from_bytes(self.data)
    }
}

/// A byte written and read back is the same byte.
pub proof fn law_byte_round_trip(b: u8)
    ensures
        b.encoding().len() == 1 && b.encoding()[0] == b,
{
}

} // verus!
