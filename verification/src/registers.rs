//! Register values as the engine supplies them and the wire encodes
//! them: a register number, a definedness flag, a byte width, and either
//! an inline scalar or an opaque byte array.

use crate::hex::{hex_digit_char, hex_encoded, push_hex_bytes};
use vstd::prelude::*;

verus! {

/// A register number, as the wire's `p`/`P` packets count them.
pub type GdbRegister = u32;

/// No register is wider than this many bytes.
pub const MAX_REG_SIZE_BYTES: usize = 256;

/// The value carried by a register: an inline scalar of 1, 2, 4 or 8
/// bytes, or an opaque byte array of the declared width.
#[derive(Clone, Debug)]
pub enum GdbRegisterValueData {
    Value(Vec<u8>),
    Value1(u8),
    Value2(u16),
    Value4(u32),
    Value8(u64),
}

impl Default for GdbRegisterValueData {
    fn default() -> (r: Self)
        ensures
            r == GdbRegisterValueData::Value8(0u64),
    {
        GdbRegisterValueData::Value8(0)
    }
}

/// A possibly-undefined register `name`.  `size` says how many bytes of
/// the value are meaningful, if any.
#[derive(Clone, Debug)]
pub struct GdbRegisterValue {
    pub name: GdbRegister,
    pub value: GdbRegisterValueData,
    pub defined: bool,
    pub size: usize,
}

impl Default for GdbRegisterValue {
    fn default() -> (r: Self)
        ensures
            r.name == 0,
            r.value == GdbRegisterValueData::Value8(0u64),
            !r.defined,
            r.size == 0,
    {
        GdbRegisterValue { name: 0, value: GdbRegisterValueData::Value8(0), defined: false, size: 0 }
    }
}

/// A register value is well formed when its width fits the architecture
/// maximum and agrees with the representation of its value.
pub open spec fn reg_wf(r: GdbRegisterValue) -> bool {
    &&& r.size <= MAX_REG_SIZE_BYTES
    &&& (r.value matches GdbRegisterValueData::Value(v) ==> v@.len() == r.size)
    &&& (r.defined && r.value is Value1 ==> r.size == 1)
    &&& (r.defined && r.value is Value2 ==> r.size == 2)
    &&& (r.defined && r.value is Value4 ==> r.size == 4)
    &&& (r.defined && r.value is Value8 ==> r.size == 8)
}

impl GdbRegisterValue {
    pub fn value1(&self) -> (r: u8)
        requires
            self.value is Value1,
        ensures
            self.value == GdbRegisterValueData::Value1(r),
    {
        match self.value {
            GdbRegisterValueData::Value1(v) => v,
            _ => unreached(),
        }
    }

    pub fn value2(&self) -> (r: u16)
        requires
            self.value is Value2,
        ensures
            self.value == GdbRegisterValueData::Value2(r),
    {
        match self.value {
            GdbRegisterValueData::Value2(v) => v,
            _ => unreached(),
        }
    }

    pub fn value4(&self) -> (r: u32)
        requires
            self.value is Value4,
        ensures
            self.value == GdbRegisterValueData::Value4(r),
    {
        match self.value {
            GdbRegisterValueData::Value4(v) => v,
            _ => unreached(),
        }
    }

    pub fn value8(&self) -> (r: u64)
        requires
            self.value is Value8,
        ensures
            self.value == GdbRegisterValueData::Value8(r),
    {
        match self.value {
            GdbRegisterValueData::Value8(v) => v,
            _ => unreached(),
        }
    }

    pub fn value(&self) -> (r: Vec<u8>)
        requires
            self.value is Value,
            reg_wf(*self),
        ensures
            self.value matches GdbRegisterValueData::Value(v) && r@ == v@,
    {
        match &self.value {
            GdbRegisterValueData::Value(v) => vstd::slice::slice_to_vec(v.as_slice()),
            _ => unreached(),
        }
    }
}

/// The fixed-width hex spelling of `v`, exactly `digits` digits.
pub open spec fn hex_fixed(v: nat, digits: nat) -> Seq<u8>
    decreases digits,
{
    if digits == 0 {
        Seq::<u8>::empty()
    } else {
        hex_fixed(v / 16, (digits - 1) as nat).push(hex_digit_char((v % 16) as u8))
    }
}

/// Append `v` zero-padded to exactly `digits` hex digits.
pub fn push_hex_fixed(buf: &mut Vec<u8>, v: u64, digits: u32)
    ensures
        final(buf)@ == old(buf)@ + hex_fixed(v as nat, digits as nat),
    decreases digits,
{
    if digits == 0 {
        assert(buf@ =~= buf@ + hex_fixed(v as nat, 0));
    } else {
        push_hex_fixed(buf, v / 16, digits - 1);
        buf.push(crate::hex::hex_digit((v % 16) as u8));
        assert(buf@ =~= old(buf)@ + hex_fixed(v as nat, digits as nat));
    }
}

/// The digits a register contributes to a reply: its bytes in the order
/// the engine supplied them, or `xx` per byte when it is undefined.
pub open spec fn reg_value_digits(r: GdbRegisterValue) -> Seq<u8> {
    if r.defined {
        match r.value {
            GdbRegisterValueData::Value(v) => hex_encoded(v@),
            GdbRegisterValueData::Value1(v) => hex_fixed(v as nat, 2),
            GdbRegisterValueData::Value2(v) => hex_fixed(v as nat, 4),
            GdbRegisterValueData::Value4(v) => hex_fixed(v as nat, 8),
            GdbRegisterValueData::Value8(v) => hex_fixed(v as nat, 16),
        }
    } else {
        Seq::new(2 * r.size as nat, |i: int| 120u8)
    }
}

/// Format one register value as the wire expects it.
pub fn print_reg_value(reg: &GdbRegisterValue, buf: &mut Vec<u8>)
    requires
        reg_wf(*reg),
    ensures
        final(buf)@ == old(buf)@ + reg_value_digits(*reg),
{
    if reg.defined {
        match &reg.value {
            GdbRegisterValueData::Value(v) => {
                push_hex_bytes(buf, v.as_slice());
            },
            GdbRegisterValueData::Value1(v) => {
                push_hex_fixed(buf, *v as u64, 2);
            },
            GdbRegisterValueData::Value2(v) => {
                push_hex_fixed(buf, *v as u64, 4);
            },
            GdbRegisterValueData::Value4(v) => {
                push_hex_fixed(buf, *v as u64, 8);
            },
            GdbRegisterValueData::Value8(v) => {
                push_hex_fixed(buf, *v, 16);
            },
        }
    } else {
        let n: usize = reg.size;
        let mut i: usize = 0;
        while i < n
            invariant
                i <= n,
                buf@ == old(buf)@ + Seq::new(2 * i as nat, |t: int| 120u8),
            decreases n - i,
        {
            buf.push(120);
            buf.push(120);
            proof {
                assert(buf@ =~= old(buf)@ + Seq::new((2 * (i + 1)) as nat, |t: int| 120u8));
            }
            i = i + 1;
        }
    }
}

} // verus!
