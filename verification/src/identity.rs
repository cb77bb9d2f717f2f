//! Input identities: what produced a signal, or what a signal is turned into.
//! Two axis identities count as the same table key when their codes agree and
//! their values have the same sign.

use vstd::prelude::*;
use vstd::std_specs::cmp::PartialEqSpecImpl;

verus! {

/// A source or a target of a remap.
///
/// As a source, `Abs(code, v)` stands for every value of the axis `code` with
/// the sign of `v`, and `v` is the threshold on that side. As a target,
/// `Abs(code, v)` names the axis to emit on and the scale of the output.
#[derive(Clone, Copy, Debug)]
pub enum InputRemap {
    /// A button, by its code.
    Key(u16),
    /// An axis, by its code, with a representative value.
    Abs(u16, i32),
    /// Reserved for a host-level action that has no output yet.
    SteamQuickAccess,
}

/// The side of zero on which `v` lies: 1, -1 or 0.
pub open spec fn sign_of(v: int) -> int {
    if v > 0 {
        1
    } else if v < 0 {
        -1
    } else {
        0
    }
}

impl InputRemap {
    /// The relation under which the table finds its keys. Buttons agree by
    /// code; axes agree by code and by the sign of their values, whatever the
    /// magnitudes.
    pub open spec fn equivalent(self, other: InputRemap) -> bool {
        match self {
            InputRemap::Key(a) => other matches InputRemap::Key(b) && a == b,
            InputRemap::Abs(a, x) => other matches InputRemap::Abs(b, y) && a == b && sign_of(
                x as int,
            ) == sign_of(y as int),
            InputRemap::SteamQuickAccess => other is SteamQuickAccess,
        }
    }

    /// The number under which the table files an identity: equal for two
    /// identities exactly when they are equivalent.
    pub open spec fn spec_bucket(self) -> u32 {
        match self {
            InputRemap::Key(k) => (0x0100_0000 + k) as u32,
            InputRemap::Abs(a, v) => if v > 0 {
                (0x0203_0000 + a) as u32
            } else if v < 0 {
                (0x0204_0000 + a) as u32
            } else {
                (0x0205_0000 + a) as u32
            },
            InputRemap::SteamQuickAccess => 0x0600_0000,
        }
    }

    /// Derives the table key of an identity.
    pub fn bucket(&self) -> (r: u32)
        ensures
            r == self.spec_bucket(),
    {
        match *self {
            InputRemap::Key(k) => 0x0100_0000u32 + k as u32,
            InputRemap::Abs(a, v) => if v > 0 {
                0x0203_0000u32 + a as u32
            } else if v < 0 {
                0x0204_0000u32 + a as u32
            } else {
                0x0205_0000u32 + a as u32
            },
            InputRemap::SteamQuickAccess => 0x0600_0000u32,
        }
    }

    /// Field-by-field comparison: the same variant with the same code and
    /// the same value.
    pub fn same(&self, other: &InputRemap) -> (r: bool)
        ensures
            r == (*self == *other),
    {
        match *self {
            InputRemap::Key(a) => match *other {
                InputRemap::Key(b) => a == b,
                _ => false,
            },
            InputRemap::Abs(a, x) => match *other {
                InputRemap::Abs(b, y) => a == b && x == y,
                _ => false,
            },
            InputRemap::SteamQuickAccess => match *other {
                InputRemap::SteamQuickAccess => true,
                _ => false,
            },
        }
    }
}

impl PartialEq for InputRemap {
    /// `==` on identities is the table's key relation, not a comparison of
    /// fields.
    fn eq(&self, other: &InputRemap) -> (r: bool) {
        match *self {
            InputRemap::Key(a) => match *other {
                InputRemap::Key(b) => a == b,
                _ => false,
            },
            InputRemap::Abs(a, x) => match *other {
                InputRemap::Abs(b, y) => a == b && ((x < 0 && y < 0) || (x > 0 && y > 0) || (x == 0
                    && y == 0)),
                _ => false,
            },
            InputRemap::SteamQuickAccess => match *other {
                InputRemap::SteamQuickAccess => true,
                _ => false,
            },
        }
    }
}

impl PartialEqSpecImpl for InputRemap {
    open spec fn obeys_eq_spec() -> bool {
        true
    }

    open spec fn eq_spec(&self, other: &InputRemap) -> bool {
        self.equivalent(*other)
    }
}

impl Eq for InputRemap {

}

/// Every identity is equivalent to itself.
pub proof fn lemma_equivalent_reflexive(a: InputRemap)
    ensures
        a.equivalent(a),
{
}

/// Equivalence does not depend on the order of the two identities.
pub proof fn lemma_equivalent_symmetric(a: InputRemap, b: InputRemap)
    ensures
        a.equivalent(b) == b.equivalent(a),
{
}

/// Two identities are equivalent exactly when they are filed under the same
/// bucket, so the bucket can stand for the key in a table.
pub proof fn lemma_bucket_consistent(a: InputRemap, b: InputRemap)
    ensures
        a.equivalent(b) <==> a.spec_bucket() == b.spec_bucket(),
{
}

/// Two values of one axis on the same side of zero give equivalent
/// identities, however far apart they are: equivalence does not preserve the
/// value.
pub proof fn lemma_magnitude_ignored(code: u16, x: i32, y: i32)
    ensures
        InputRemap::Abs(code, x).equivalent(InputRemap::Abs(code, y)) <==> sign_of(x as int)
            == sign_of(y as int),
{
}

} // verus!
