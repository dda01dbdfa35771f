//! The tagged values the interpreter computes with: null, a double (as its
//! bit pattern), a shared piece of text with its UTF-16 code units, a
//! reference to an attached device, or a symbolic property name.

use vstd::prelude::*;

verus! {

/// One UTF-16 code unit sequence: a unit for codepoints below 2^16, a
/// surrogate pair above.
pub open spec fn utf16_char(c: char) -> Seq<u16> {
    if (c as u32) < 0x10000 {
        seq![c as u16]
    } else {
        let v = ((c as u32) - 0x10000) as u32;
        seq![(0xd800 + (v >> 10)) as u16, (0xdc00 + (v & 0x3ff)) as u16]
    }
}

/// The UTF-16 encoding of a text, defined from its tail so that pushing a
/// character extends the encoding.
pub open spec fn utf16_of(s: Seq<char>) -> Seq<u16>
    decreases s.len(),
{
    if s.len() == 0 {
        Seq::empty()
    } else {
        utf16_of(s.drop_last()).add(utf16_char(s.last()))
    }
}

/// Computes the UTF-16 encoding of a character sequence.
pub fn encode_utf16(cs: &Vec<char>) -> (r: Vec<u16>)
    ensures
        r@ == utf16_of(cs@),
{
    let mut out: Vec<u16> = Vec::new();
    let n: usize = cs.len();
    let mut i: usize = 0;
    while i < n
        invariant
            n == cs@.len(),
            i <= n,
            out@ == utf16_of(cs@.take(i as int)),
        decreases n - i,
    {
        let c: char = cs[i];
        let u: u32 = c as u32;
        proof {
            assert(cs@.take(i + 1).drop_last() =~= cs@.take(i as int));
            assert(cs@.take(i + 1).last() == cs@[i as int]);
        }
        if u < 0x10000 {
            out.push(c as u16);
            proof {
                assert(out@ =~= utf16_of(cs@.take(i as int)).add(utf16_char(cs@[i as int])));
            }
        } else {
            let v: u32 = u - 0x10000;
            proof {
                assert(v >> 10 <= 0x3fffff && v & 0x3ff <= 0x3ff) by (bit_vector);
            }
            out.push(#[verifier::truncate] ((0xd800 + (v >> 10)) as u16));
            out.push(#[verifier::truncate] ((0xdc00 + (v & 0x3ff)) as u16));
            proof {
                assert(out@ =~= utf16_of(cs@.take(i as int)).add(utf16_char(cs@[i as int])));
            }
        }
        i = i + 1;
    }
    proof {
        assert(cs@.take(n as int) == cs@);
    }
    out
}

/// A piece of program text together with its UTF-16 code units. The units
/// are computed once, when the value is made, so every reading of the text
/// by index shares the same vector.
#[derive(Debug)]
pub struct LazyUtf16String {
    string: String,
    utf_16: Vec<u16>,
}

impl LazyUtf16String {
    pub closed spec fn text(&self) -> Seq<char> {
        self.string@
    }

    pub closed spec fn units(&self) -> Seq<u16> {
        self.utf_16@
    }

    /// The one well-formedness fact of the type: the cached units are the
    /// encoding of the text.
    pub open spec fn wf(&self) -> bool {
        self.units() == utf16_of(self.text())
    }

    pub fn new(string: String) -> (r: Self)
        ensures
            r.text() == string@,
            r.wf(),
    {
        let cs = crate::text::chars_of(string.as_str());
        let utf_16 = encode_utf16(&cs);
        LazyUtf16String { string, utf_16 }
    }

    pub fn as_utf_16(&self) -> (r: &Vec<u16>)
        ensures
            r@ == self.units(),
    {
        &self.utf_16
    }

    pub fn to_utf_16(self) -> (r: Vec<u16>)
        ensures
            r@ == self.units(),
    {
        self.utf_16
    }

    pub fn as_string_ref(&self) -> (r: &String)
        ensures
            r@ == self.text(),
    {
        &self.string
    }

    pub fn clone_string(&self) -> (r: String)
        ensures
            r@ == self.text(),
    {
        self.string.clone()
    }

    pub fn duplicate(&self) -> (r: Self)
        ensures
            r.text() == self.text(),
            r.units() == self.units(),
    {
        let mut units: Vec<u16> = Vec::new();
        let n: usize = self.utf_16.len();
        let mut i: usize = 0;
        while i < n
            invariant
                n == self.utf_16@.len(),
                i <= n,
                units@ == self.utf_16@.take(i as int),
            decreases n - i,
        {
            proof {
                assert(self.utf_16@.take(i + 1) == self.utf_16@.take(i as int).push(
                    self.utf_16@[i as int],
                ));
            }
            units.push(self.utf_16[i]);
            i = i + 1;
        }
        proof {
            assert(self.utf_16@.take(n as int) == self.utf_16@);
        }
        LazyUtf16String { string: self.string.clone(), utf_16: units }
    }
}

/// A symbolic property name from the interpreter's fixed vocabulary.
#[derive(Debug)]
pub struct Property {
    name: &'static str,
}

impl Property {
    pub closed spec fn view(&self) -> Seq<char> {
        self.name@
    }

    pub fn new(name: &'static str) -> (r: Self)
        ensures
            r.view() == name@,
    {
        Property { name }
    }

    pub fn name(&self) -> (r: &'static str)
        ensures
            r@ == self.view(),
    {
        self.name
    }

    pub fn duplicate(&self) -> (r: Self)
        ensures
            r.view() == self.view(),
    {
        Property { name: self.name }
    }
}

/// What a device-valued variable points at: an attached device by its
/// position in the device list, or the processor itself, which serves
/// `@this`.
#[derive(Debug, Clone, Copy, PartialEq, Eq, Structural)]
pub enum BuildingRef {
    Device(usize),
    This,
}

/// A tagged value: null, a double as its IEEE-754 bit pattern, shared
/// text, a device reference, or a property name.
#[derive(Debug)]
pub enum Value {
    Null,
    Num(u64),
    Str(LazyUtf16String),
    Building(BuildingRef),
    Property(Property),
}

/// Value equivalence: when two values carry the same content.
/// Doubles compare by IEEE equality, text by its characters, devices by
/// their reference (device names are unique, so this is equality by
/// name), properties by name; values of different kinds differ.
pub open spec fn val_equiv(a: Value, b: Value) -> bool {
    match (a, b) {
        (Value::Null, Value::Null) => true,
        (Value::Num(x), Value::Num(y)) => x == y,
        (Value::Str(x), Value::Str(y)) => x.text() == y.text() && x.units() == y.units(),
        (Value::Building(x), Value::Building(y)) => x == y,
        (Value::Property(x), Value::Property(y)) => x.view() == y.view(),
        _ => false,
    }
}

/// The equality test of the `equal` and `strictEqual` operations: IEEE
/// equality on doubles (so NaN equals nothing and the two zeros are
/// equal), text equality on strings, reference equality on devices.
pub open spec fn val_eq_b(a: Value, b: Value) -> bool {
    match (a, b) {
        (Value::Null, Value::Null) => true,
        (Value::Num(x), Value::Num(y)) => crate::bits::num_eq_b(x, y),
        (Value::Str(x), Value::Str(y)) => x.text() == y.text(),
        (Value::Building(x), Value::Building(y)) => x == y,
        (Value::Property(x), Value::Property(y)) => x.view() == y.view(),
        _ => false,
    }
}

impl Value {
    /// Structural validity against a device list of the given length.
    pub open spec fn valid(&self, ndev: int) -> bool {
        match self {
            Value::Str(l) => l.wf(),
            Value::Building(BuildingRef::Device(i)) => (i as int) < ndev,
            _ => true,
        }
    }

    pub fn duplicate(&self) -> (r: Value)
        ensures
            val_equiv(r, *self),
    {
        match self {
            Value::Null => Value::Null,
            Value::Num(b) => Value::Num(*b),
            Value::Str(l) => Value::Str(l.duplicate()),
            Value::Building(r0) => Value::Building(*r0),
            Value::Property(p) => Value::Property(p.duplicate()),
        }
    }

    pub fn kind_name(&self) -> (r: &'static str)
        ensures
            r@ == self.kind_name_b(),
    {
        let r: &'static str = match self {
            Value::Null => "null",
            Value::Num(_) => "num",
            Value::Str(_) => "str",
            Value::Building(_) => "Building",
            Value::Property(_) => "Property",
        };
        proof {
            reveal_strlit("null");
            reveal_strlit("num");
            reveal_strlit("str");
            reveal_strlit("Building");
            reveal_strlit("Property");
        }
        r
    }

    pub open spec fn kind_name_b(&self) -> Seq<char> {
        match self {
            Value::Null => "null"@,
            Value::Num(_) => "num"@,
            Value::Str(_) => "str"@,
            Value::Building(_) => "Building"@,
            Value::Property(_) => "Property"@,
        }
    }

    pub fn is_null(&self) -> (r: bool)
        ensures
            r == (self is Null),
    {
        match self {
            Value::Null => true,
            _ => false,
        }
    }
}

/// Equivalent values are equal under the interpreter's equality test.
pub proof fn lemma_val_eq_equiv(a1: Value, a2: Value, b1: Value, b2: Value)
    requires
        val_equiv(a1, a2),
        val_equiv(b1, b2),
    ensures
        val_eq_b(a1, b1) == val_eq_b(a2, b2),
{
}

/// Validity against a device count only grows with the count.
pub proof fn lemma_value_valid_mono(v: Value, n1: int, n2: int)
    requires
        v.valid(n1),
        n1 <= n2,
    ensures
        v.valid(n2),
{
}

/// Equivalence preserves structural validity.
pub proof fn lemma_valid_equiv(a1: Value, a2: Value, ndev: int)
    requires
        val_equiv(a1, a2),
    ensures
        a1.valid(ndev) == a2.valid(ndev),
{
}

pub fn val_eq(a: &Value, b: &Value) -> (r: bool)
    ensures
        r == val_eq_b(*a, *b),
{
    match (a, b) {
        (Value::Null, Value::Null) => true,
        (Value::Num(x), Value::Num(y)) => crate::bits::f64_eq(*x, *y),
        (Value::Str(x), Value::Str(y)) => crate::text::str_eq(
            x.as_string_ref().as_str(),
            y.as_string_ref().as_str(),
        ),
        (Value::Building(x), Value::Building(y)) => {
            match (x, y) {
                (BuildingRef::Device(i), BuildingRef::Device(j)) => i == j,
                (BuildingRef::This, BuildingRef::This) => true,
                _ => false,
            }
        },
        (Value::Property(x), Value::Property(y)) => crate::text::str_eq(x.name(), y.name()),
        _ => false,
    }
}

} // verus!
