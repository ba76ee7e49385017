//! Type constraints: an optional type name and a set of flags.

use vstd::prelude::*;

verus! {

/// A set of constraint flags, one bit for each.
#[derive(Clone, Copy, Debug, PartialEq, Eq, Structural)]
pub struct Flags {
    bits: u8,
}

/// The name of the flag with the bit `flag`, if that bit is set in `bits`.
pub open spec fn name_if(bits: u8, flag: u8, name: Seq<char>) -> Seq<Seq<char>> {
    if bits & flag != 0 {
        seq![name]
    } else {
        Seq::empty()
    }
}

/// The names of the flags that are set in `bits`, from the lowest bit up.
pub open spec fn names_of(bits: u8) -> Seq<Seq<char>> {
    name_if(bits, Flags::NULLABLE, "nullable"@) + name_if(bits, Flags::HH_TYPE, "hh_type"@)
        + name_if(bits, Flags::EXTENDED_HINT, "extended_hint"@) + name_if(
        bits,
        Flags::TYPE_VAR,
        "type_var"@,
    ) + name_if(bits, Flags::SOFT, "soft"@) + name_if(bits, Flags::TYPE_CONSTANT, "type_constant"@)
        + name_if(bits, Flags::DISPLAY_NULLABLE, "display_nullable"@)
}

/// The names with one space between each two.
pub open spec fn joined(names: Seq<Seq<char>>) -> Seq<char>
    decreases names.len(),
{
    if names.len() == 0 {
        Seq::empty()
    } else if names.len() == 1 {
        names[0]
    } else {
        joined(names.drop_last()) + seq![' '] + names.last()
    }
}

/// The rendering of a set of flags: the names of its flags with one space
/// between each two, and `(empty)` for the set without flags.
pub open spec fn rendered(bits: u8) -> Seq<char> {
    if names_of(bits).len() == 0 {
        "(empty)"@
    } else {
        joined(names_of(bits))
    }
}

/// Appends the name of the flag with the bit `flag` if that bit is set in
/// `bits`, after a space where a name stands before it.
fn append_flag(
    out: &mut String,
    count: &mut usize,
    bits: u8,
    flag: u8,
    name: &str,
    Ghost(names): Ghost<Seq<Seq<char>>>,
) -> (r: Ghost<Seq<Seq<char>>>)
    requires
        old(out)@ == joined(names),
        *old(count) == names.len(),
        *old(count) < 100,
    ensures
        r@ == names + name_if(bits, flag, name@),
        final(out)@ == joined(r@),
        *final(count) == r@.len(),
{
    if bits & flag != 0 {
        proof {
            reveal_strlit(" ");
            assert(names.push(name@).drop_last() =~= names);
            assert(" "@ =~= seq![' ']);
        }
        if *count > 0 {
            out.append(" ");
        }
        out.append(name);
        *count = *count + 1;
        proof {
            if names.len() == 0 {
                assert(out@ =~= name@);
            }
            assert(names.push(name@) =~= names + name_if(bits, flag, name@));
        }
        Ghost(names.push(name@))
    } else {
        assert(names =~= names + name_if(bits, flag, name@));
        Ghost(names)
    }
}

impl Flags {
    pub const NULLABLE: u8 = 0b0000_0001;

    pub const HH_TYPE: u8 = 0b0000_0010;

    pub const EXTENDED_HINT: u8 = 0b0000_0100;

    pub const TYPE_VAR: u8 = 0b0000_1000;

    pub const SOFT: u8 = 0b0001_0000;

    pub const TYPE_CONSTANT: u8 = 0b0010_0000;

    pub const DISPLAY_NULLABLE: u8 = 0b0100_0000;

    /// The bits of all flags together.
    pub const ALL: u8 = 0b0111_1111;

    /// Only bits of flags are ever set.
    #[verifier::type_invariant]
    spec fn inv(self) -> bool {
        self.bits & !Flags::ALL == 0
    }

    /// The bits of the flags that are set.
    pub closed spec fn spec_bits(&self) -> u8 {
        self.bits
    }

    #[verifier::when_used_as_spec(spec_bits)]
    pub fn bits(&self) -> (r: u8)
        ensures
            r == self.spec_bits(),
            r & !Flags::ALL == 0,
    {
        proof {
            use_type_invariant(self);
        }
        self.bits
    }

    /// The set without flags.
    pub fn empty() -> (r: Flags)
        ensures
            r.bits() == 0,
    {
        assert(0u8 & !0b0111_1111u8 == 0) by (bit_vector);
        Flags { bits: 0 }
    }

    /// The set of all flags.
    pub fn all() -> (r: Flags)
        ensures
            r.bits() == Flags::ALL,
    {
        assert(0b0111_1111u8 & !0b0111_1111u8 == 0) by (bit_vector);
        Flags { bits: Flags::ALL }
    }

    /// The set with exactly the bits `bits`, unless a bit of no flag is
    /// among them.
    pub fn from_bits(bits: u8) -> (r: Option<Flags>)
        ensures
            r is Some <==> bits & !Flags::ALL == 0,
            r matches Some(f) ==> f.bits() == bits,
    {
        if bits & !Flags::ALL == 0 {
            Some(Flags { bits })
        } else {
            None
        }
    }

    /// The set with the bits of `bits` that are bits of flags.
    pub fn from_bits_truncate(bits: u8) -> (r: Flags)
        ensures
            r.bits() == bits & Flags::ALL,
    {
        assert((bits & 0b0111_1111u8) & !0b0111_1111u8 == 0) by (bit_vector);
        Flags { bits: bits & Flags::ALL }
    }

    pub fn is_empty(&self) -> (b: bool)
        ensures
            b == (self.bits() == 0),
    {
        self.bits == 0
    }

    /// Whether every flag of `other` is in this set.
    pub fn contains(&self, other: Flags) -> (b: bool)
        ensures
            b == (self.bits() & other.bits() == other.bits()),
    {
        self.bits & other.bits == other.bits
    }

    /// The flags that are in this set or in `other`.
    pub fn union(self, other: Flags) -> (r: Flags)
        ensures
            r.bits() == self.bits() | other.bits(),
    {
        proof {
            use_type_invariant(&self);
            use_type_invariant(&other);
        }
        let a: u8 = self.bits;
        let b: u8 = other.bits;
        assert((a | b) & !0b0111_1111u8 == 0) by (bit_vector)
            requires
                a & !0b0111_1111u8 == 0,
                b & !0b0111_1111u8 == 0,
        ;
        Flags { bits: a | b }
    }

    /// The names of the flags of the set, in lower case, from the lowest
    /// bit up and with one space between each two.
    pub fn to_string(&self) -> (s: String)
        ensures
            s@ == rendered(self.bits()),
    {
        let bits: u8 = self.bits;
        let mut s = String::new();
        let mut count: usize = 0;
        let ghost none: Seq<Seq<char>> = Seq::empty();
        assert(s@ =~= joined(none));
        let n1 = append_flag(&mut s, &mut count, bits, Flags::NULLABLE, "nullable", Ghost(none));
        let n2 = append_flag(&mut s, &mut count, bits, Flags::HH_TYPE, "hh_type", n1);
        let n3 = append_flag(&mut s, &mut count, bits, Flags::EXTENDED_HINT, "extended_hint", n2);
        let n4 = append_flag(&mut s, &mut count, bits, Flags::TYPE_VAR, "type_var", n3);
        let n5 = append_flag(&mut s, &mut count, bits, Flags::SOFT, "soft", n4);
        let n6 = append_flag(&mut s, &mut count, bits, Flags::TYPE_CONSTANT, "type_constant", n5);
        let n7 = append_flag(
            &mut s,
            &mut count,
            bits,
            Flags::DISPLAY_NULLABLE,
            "display_nullable",
            n6,
        );
        proof {
            assert(n1@ =~= name_if(bits, Flags::NULLABLE, "nullable"@));
            assert(n7@ == names_of(bits));
        }
        if count == 0 {
            String::from_str("(empty)")
        } else {
            s
        }
    }
}

impl Default for Flags {
    fn default() -> (r: Flags)
        ensures
            r.bits() == 0,
    {
        Flags::empty()
    }
}

/// A type constraint: the name of the type, if it has one, and the flags.
#[derive(Debug)]
pub struct Type {
    pub name: Option<String>,
    pub flags: Flags,
}

impl Type {
    pub fn make(name: Option<String>, flags: Flags) -> (r: Type)
        ensures
            r.name == name,
            r.flags == flags,
    {
        Type { name, flags }
    }
}

impl Clone for Type {
    fn clone(&self) -> (r: Type)
        ensures
            r == *self,
    {
        Type { name: self.name.clone(), flags: self.flags }
    }
}

impl Default for Type {
    fn default() -> (r: Type)
        ensures
            r.name is None,
            r.flags.bits() == 0,
    {
        Type { name: None, flags: Flags::empty() }
    }
}

} // verus!
