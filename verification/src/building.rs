//! The attached devices: a message display that a print flush fills, and
//! a memory cell of doubles. The processor itself also serves as a device
//! through `BuildingRef::This`, handled where the store is at hand.
//!
//! The value coercions live here too, because a failed coercion renders
//! the value, and rendering a device value needs the device list for its
//! name.

use vstd::prelude::*;

use crate::bits;
use crate::value::{BuildingRef, LazyUtf16String, Property, Value};
use crate::vm::VmError;

verus! {

#[derive(Debug)]
pub struct MessageBuilding {
    pub name: String,
    pub text: String,
}

impl MessageBuilding {
    pub fn new(name: String) -> (r: Self)
        ensures
            r.name@ == name@,
            r.text@ == Seq::<char>::empty(),
    {
        MessageBuilding { name, text: String::new() }
    }

    pub fn get_text(&self) -> (r: String)
        ensures
            r@ == self.text@,
    {
        self.text.clone()
    }
}

#[derive(Debug)]
pub struct MemoryBuilding {
    pub name: String,
    pub data: Vec<u64>,
}

impl MemoryBuilding {
    pub fn new(name: String, capacity: usize) -> (r: Self)
        ensures
            r.name@ == name@,
            r.data@.len() == capacity,
            forall|i: int| 0 <= i < capacity ==> r.data@[i] == bits::ZERO_BITS,
    {
        let mut data: Vec<u64> = Vec::new();
        let mut i: usize = 0;
        while i < capacity
            invariant
                i <= capacity,
                data@.len() == i,
                forall|j: int| 0 <= j < i ==> data@[j] == bits::ZERO_BITS,
            decreases capacity - i,
        {
            data.push(bits::ZERO_BITS);
            i = i + 1;
        }
        MemoryBuilding { name, data }
    }

    pub fn get_data(&self) -> (r: Vec<u64>)
        ensures
            r@ == self.data@,
    {
        let mut out: Vec<u64> = Vec::new();
        let n: usize = self.data.len();
        let mut i: usize = 0;
        while i < n
            invariant
                n == self.data@.len(),
                i <= n,
                out@ == self.data@.take(i as int),
            decreases n - i,
        {
            proof {
                assert(self.data@.take(i + 1) == self.data@.take(i as int).push(
                    self.data@[i as int],
                ));
            }
            out.push(self.data[i]);
            i = i + 1;
        }
        proof {
            assert(self.data@.take(n as int) == self.data@);
        }
        out
    }
}

/// An attached device. The set is closed: a message display or a memory
/// cell.
#[derive(Debug)]
pub enum Building {
    Message(MessageBuilding),
    Memory(MemoryBuilding),
}

impl Building {
    pub open spec fn name_s(&self) -> Seq<char> {
        match self {
            Building::Message(m) => m.name@,
            Building::Memory(m) => m.name@,
        }
    }

    pub fn name(&self) -> (r: &str)
        ensures
            r@ == self.name_s(),
    {
        match self {
            Building::Message(m) => m.name.as_str(),
            Building::Memory(m) => m.name.as_str(),
        }
    }
}

/// How a value prints: `null`, the number's rendering, the text itself,
/// a device's name, or `@` before a property name.
pub open spec fn display_value_b(v: Value, bs: Seq<Building>) -> Seq<char> {
    match v {
        Value::Null => "null"@,
        Value::Num(b) => crate::numext::num_display_b(b),
        Value::Str(l) => l.text(),
        Value::Building(BuildingRef::This) => "@this"@,
        Value::Building(BuildingRef::Device(i)) => if (i as int) < bs.len() {
            bs[i as int].name_s()
        } else {
            Seq::<char>::empty()
        },
        Value::Property(p) => seq!['@'].add(p.view()),
    }
}

pub fn display_value(v: &Value, bs: &Vec<Building>) -> (r: Vec<char>)
    ensures
        r@ == display_value_b(*v, bs@),
{
    match v {
        Value::Null => {
            proof {
                reveal_strlit("null");
            }
            let mut out: Vec<char> = Vec::new();
            crate::text::append_str(&mut out, "null");
            out
        },
        Value::Num(b) => crate::numext::num_to_chars(*b),
        Value::Str(l) => crate::text::chars_of(l.as_string_ref().as_str()),
        Value::Building(BuildingRef::This) => {
            proof {
                reveal_strlit("@this");
            }
            let mut out: Vec<char> = Vec::new();
            crate::text::append_str(&mut out, "@this");
            out
        },
        Value::Building(BuildingRef::Device(i)) => {
            let mut out: Vec<char> = Vec::new();
            if *i < bs.len() {
                crate::text::append_str(&mut out, bs[*i].name());
            }
            out
        },
        Value::Property(p) => {
            let mut out: Vec<char> = Vec::new();
            out.push('@');
            crate::text::append_str(&mut out, p.name());
            proof {
                assert(out@ =~= seq!['@'].add(p.view()));
            }
            out
        },
    }
}

/// Equivalent values render the same.
pub proof fn lemma_display_equiv(a1: Value, a2: Value, bs: Seq<Building>)
    requires
        crate::value::val_equiv(a1, a2),
    ensures
        display_value_b(a1, bs) == display_value_b(a2, bs),
{
}

/// A failed coercion's error fits any value equivalent to the coerced one.
pub proof fn lemma_cast_equiv(e: VmError, v1: Value, v2: Value, bs: Seq<Building>, to: Seq<char>)
    requires
        crate::value::val_equiv(v1, v2),
        is_invalid_cast(e, v1, bs, to),
    ensures
        is_invalid_cast(e, v2, bs, to),
{
    lemma_display_equiv(v1, v2, bs);
}

/// An indexing outcome fits any value equivalent to the index.
pub proof fn lemma_index_equiv(
    r: Result<usize, VmError>,
    v1: Value,
    v2: Value,
    bs: Seq<Building>,
    len: int,
    device: Seq<char>,
)
    requires
        crate::value::val_equiv(v1, v2),
        index_outcome(r, v1, bs, len, device),
    ensures
        index_outcome(r, v2, bs, len, device),
{
    lemma_display_equiv(v1, v2, bs);
}

/// The error of a failed coercion of `v` toward the kind named `to`.
pub open spec fn is_invalid_cast(e: VmError, v: Value, bs: Seq<Building>, to: Seq<char>) -> bool {
    &&& e matches VmError::InvalidCast(m, f, t)
    &&& (e matches VmError::InvalidCast(m, f, t) ==> m@ == display_value_b(v, bs) && f@
        == v.kind_name_b() && t@ == to)
}

fn invalid_cast(v: &Value, bs: &Vec<Building>, to: &'static str) -> (e: VmError)
    ensures
        is_invalid_cast(e, *v, bs@, to@),
{
    let m = display_value(v, bs);
    VmError::InvalidCast(crate::text::string_from_chars(&m), v.kind_name(), to)
}

/// Coerces to a double's bit pattern: only a `Num` converts.
pub fn value_as_num(v: &Value, bs: &Vec<Building>) -> (r: Result<u64, VmError>)
    ensures
        match r {
            Ok(b) => v matches Value::Num(x) && b == x,
            Err(e) => !(v is Num) && is_invalid_cast(e, *v, bs@, "num"@),
        },
{
    proof {
        reveal_strlit("num");
    }
    match v {
        Value::Num(b) => Ok(*b),
        _ => Err(invalid_cast(v, bs, "num")),
    }
}

/// Coerces to a machine integer: a `Num` within machine epsilon of an
/// integer, rounded to that nearest integer (and clamped into range).
pub fn value_as_int(v: &Value, bs: &Vec<Building>) -> (r: Result<i64, VmError>)
    ensures
        match r {
            Ok(n) => *v matches Value::Num(x) && bits::near_int_b(x) && n == bits::round_i64_b(x),
            Err(e) => match *v {
                Value::Num(x) => !bits::near_int_b(x) && is_invalid_cast(e, *v, bs@, "int"@),
                _ => is_invalid_cast(e, *v, bs@, "num"@),
            },
        },
{
    proof {
        reveal_strlit("int");
    }
    let b = value_as_num(v, bs)?;
    if bits::f64_near_int(b) {
        Ok(bits::f64_round_i64(b))
    } else {
        Err(invalid_cast(v, bs, "int"))
    }
}

/// The outcome of indexing with `v` into something of length `len`.
pub open spec fn index_outcome(
    r: Result<usize, VmError>,
    v: Value,
    bs: Seq<Building>,
    len: int,
    device: Seq<char>,
) -> bool {
    match r {
        Ok(i) => {
            &&& v matches Value::Num(x)
            &&& (v matches Value::Num(x) ==> bits::near_int_b(x) && bits::round_i64_b(x) >= 0 && i
                == (bits::round_i64_b(x) as usize) && i < len)
        },
        Err(e) => match v {
            Value::Num(x) => {
                if !bits::near_int_b(x) {
                    is_invalid_cast(e, v, bs, "int"@)
                } else if bits::round_i64_b(x) < 0 {
                    e matches VmError::NegativeIndex(n, d) && n == bits::round_i64_b(x) && d@
                        == device
                } else {
                    &&& (bits::round_i64_b(x) as usize) >= len
                    &&& e matches VmError::IndexTooHigh(n, l, d)
                    &&& (e matches VmError::IndexTooHigh(n, l, d) ==> n == (bits::round_i64_b(x)
                        as usize) && l == len && d@ == device)
                }
            },
            _ => is_invalid_cast(e, v, bs, "num"@),
        },
    }
}

/// Coerces to an index below `len`, rejecting negatives and overruns with
/// the device's label in the error.
pub fn value_as_index(v: &Value, bs: &Vec<Building>, len: usize, device: &'static str) -> (r:
    Result<usize, VmError>)
    ensures
        index_outcome(r, *v, bs@, len as int, device@),
{
    let n = value_as_int(v, bs)?;
    if n < 0 {
        Err(VmError::NegativeIndex(n, device))
    } else {
        let u = n as usize;
        if u >= len {
            Err(VmError::IndexTooHigh(u, len, device))
        } else {
            Ok(u)
        }
    }
}

/// Coerces to text: only a `Str` converts.
pub fn value_as_str(v: &Value, bs: &Vec<Building>) -> (r: Result<LazyUtf16String, VmError>)
    ensures
        match r {
            Ok(l) => {
                &&& v matches Value::Str(x)
                &&& (v matches Value::Str(x) ==> l.text() == x.text() && l.units() == x.units())
            },
            Err(e) => !(v is Str) && is_invalid_cast(e, *v, bs@, "str"@),
        },
{
    proof {
        reveal_strlit("str");
    }
    match v {
        Value::Str(l) => Ok(l.duplicate()),
        _ => Err(invalid_cast(v, bs, "str")),
    }
}

/// Coerces to a device reference: only a `Building` converts.
pub fn value_as_building(v: &Value, bs: &Vec<Building>) -> (r: Result<BuildingRef, VmError>)
    ensures
        match r {
            Ok(b) => v matches Value::Building(x) && b == x,
            Err(e) => !(v is Building) && is_invalid_cast(e, *v, bs@, "Building"@),
        },
{
    proof {
        reveal_strlit("Building");
    }
    match v {
        Value::Building(b) => Ok(*b),
        _ => Err(invalid_cast(v, bs, "Building")),
    }
}

/// Coerces to a property name: only a `Property` converts.
pub fn value_as_property(v: &Value, bs: &Vec<Building>) -> (r: Result<Property, VmError>)
    ensures
        match r {
            Ok(p) => {
                &&& v matches Value::Property(x)
                &&& (v matches Value::Property(x) ==> p.view() == x.view())
            },
            Err(e) => !(v is Property) && is_invalid_cast(e, *v, bs@, "Property"@),
        },
{
    proof {
        reveal_strlit("Property");
    }
    match v {
        Value::Property(p) => Ok(p.duplicate()),
        _ => Err(invalid_cast(v, bs, "Property")),
    }
}

} // verus!
