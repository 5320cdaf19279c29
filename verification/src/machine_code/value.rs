use vstd::prelude::*;
use vstd::slice::slice_index_get;
use crate::models::Value;
use super::{Compile, Decompile, DecompileResult, EndOfInput, WrongLength};

verus! {

/// The number below 2^32 that has the same 32 bits as `v` has in two's
/// complement.
pub open spec fn bits(v: i32) -> int {
    if v >= 0 {
        v as int
    } else {
        v + 0x1_0000_0000
    }
}

/// The four bytes of `v` in two's complement, most significant first.
pub open spec fn be_bytes(v: i32) -> Seq<u8> {
    let u = bits(v);
    seq![
        (u / 0x100_0000) as u8,
        (u / 0x1_0000 % 0x100) as u8,
        (u / 0x100 % 0x100) as u8,
        (u % 0x100) as u8,
    ]
}

/// The integer whose two's complement form, most significant byte first, is
/// the first four bytes of `bytes`.
pub open spec fn be_value(bytes: Seq<u8>) -> i32
    recommends
        bytes.len() >= 4,
{
    let u = bytes[0] * 0x100_0000 + bytes[1] * 0x1_0000 + bytes[2] * 0x100 + bytes[3];
    if u < 0x8000_0000 {
        u as i32
    } else {
        (u - 0x1_0000_0000) as i32
    }
}

impl Value {
    /// What reading a value from the front of `bytes` gives: the integer of
    /// the first four bytes, or the error where fewer than four are there.
    pub open spec fn decoding(bytes: Seq<u8>) -> Result<DecompileResult<Value>, EndOfInput> {
        if bytes.len() < 4 {
            Err(EndOfInput { name: "Value" })
        } else {
            Ok(DecompileResult { bytes_read: 4, value: Value(be_value(bytes)) })
        }
    }

    /// The four bytes of the value, most significant first.
    pub fn to_bytes(self) -> (r: Vec<u8>)
        ensures
            r@ == be_bytes(self.0),
    {
        let mut r = Vec::new();
        self.compile(&mut r);
        r
    }

    /// The value that exactly four bytes stand for. Any other number of bytes
    /// is refused.
    pub fn try_from(bytes: &[u8]) -> (r: Result<Value, WrongLength>)
        ensures
            r == if bytes@.len() == 4 {
                Ok::<Value, WrongLength>(Value(be_value(bytes@)))
            } else {
                Err::<Value, WrongLength>(WrongLength { expected: 4, found: bytes@.len() as usize })
            },
    {
        let wrong = WrongLength { expected: 4, found: bytes.len() };
        if bytes.len() == 4 {
            match Value::decompile(bytes) {
                Ok(d) => Ok(d.value),
                Err(_) => Err(wrong),
            }
        } else {
            Err(wrong)
        }
    }
}

impl Compile for Value {
    open spec fn encoding(&self) -> Seq<u8> {
        be_bytes(self.0)
    }

    fn compile(&self, output: &mut Vec<u8>) {
        let v = self.0;
        let u: u32 = if v >= 0 {
            v as u32
        } else {
            ((v + i32::MAX) + 1) as u32 + 0x8000_0000
        };
        assert(u == bits(v));
        output.push((u / 0x100_0000) as u8);
        output.push((u / 0x1_0000 % 0x100) as u8);
        output.push((u / 0x100 % 0x100) as u8);
        output.push((u % 0x100) as u8);
        assert(output@ =~= old(output)@ + be_bytes(v));
    }
}

impl Decompile for Value {
    type Error = EndOfInput;

    open spec fn decoded(bytes: Seq<u8>, result: Result<DecompileResult<Value>, EndOfInput>) -> bool {
        result == Value::decoding(bytes)
    }

    fn decompile(bytes: &[u8]) -> (r: Result<DecompileResult<Value>, EndOfInput>) {
        if bytes.len() < 4 {
            return Err(EndOfInput { name: "Value" });
        }
        let b0: u32 = *slice_index_get(bytes, 0) as u32;
        let b1: u32 = *slice_index_get(bytes, 1) as u32;
        let b2: u32 = *slice_index_get(bytes, 2) as u32;
        let b3: u32 = *slice_index_get(bytes, 3) as u32;
        let u: u32 = b0 * 0x100_0000 + b1 * 0x1_0000 + b2 * 0x100 + b3;
        let v: i32 = if u < 0x8000_0000 {
            u as i32
        } else {
            (u - 0x8000_0000) as i32 + i32::MIN
        };
        Ok(DecompileResult { bytes_read: 4, value: Value(v) })
    }
}

impl From<Value> for Vec<u8> {
    fn from(value: Value) -> (r: Vec<u8>)
        ensures
            r@ == be_bytes(value.0),
    {
        value.to_bytes()
    }
}

impl vstd::std_specs::convert::FromSpecImpl<Value> for Vec<u8> {
    open spec fn obeys_from_spec() -> bool {
        false
    }

    open spec fn from_spec(value: Value) -> Vec<u8> {
        arbitrary()
    }
}

/// Reading back the bytes of a value gives the value and takes four bytes,
/// whatever follows them.
pub proof fn lemma_value_round_trip(v: Value, rest: Seq<u8>)
    ensures
        v.encoding().len() == 4,
        Value::decoding(v.encoding() + rest) == Ok::<DecompileResult<Value>, EndOfInput>(
            DecompileResult { bytes_read: 4, value: v },
        ),
{
    let b = v.encoding() + rest;
    assert(b[0] == v.encoding()[0]);
    assert(b[1] == v.encoding()[1]);
    assert(b[2] == v.encoding()[2]);
    assert(b[3] == v.encoding()[3]);
}

} // verus!
