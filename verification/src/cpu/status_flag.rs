use vstd::prelude::*;

verus! {

/// The four processor status bits modeled by this machine, each a single
/// position in the 8-bit status byte.
#[derive(Clone, Copy, Debug, PartialEq, Eq, Structural)]
pub enum StatusFlag {
    Carry,
    Zero,
    Overflow,
    Negative,
}

impl StatusFlag {
    /// The one-hot mask this flag occupies within the status byte.
    pub open spec fn spec_mask(self) -> u8 {
        match self {
            StatusFlag::Carry => 0b0000_0001,
            StatusFlag::Zero => 0b0000_0010,
            StatusFlag::Overflow => 0b0100_0000,
            StatusFlag::Negative => 0b1000_0000,
        }
    }

    pub fn mask(self) -> (r: u8)
        ensures
            r == self.spec_mask(),
    {
        match self {
            StatusFlag::Carry => 0b0000_0001,
            StatusFlag::Zero => 0b0000_0010,
            StatusFlag::Overflow => 0b0100_0000,
            StatusFlag::Negative => 0b1000_0000,
        }
    }
}

/// True iff `flag` is set within the status byte `status`.
pub open spec fn spec_flag_set(status: u8, flag: StatusFlag) -> bool {
    status & flag.spec_mask() != 0
}

/// The status byte with `flag` forced to 1.
pub open spec fn spec_set_bit(status: u8, flag: StatusFlag) -> u8 {
    status | flag.spec_mask()
}

/// The status byte with `flag` forced to 0.
pub open spec fn spec_unset_bit(status: u8, flag: StatusFlag) -> u8 {
    status & !flag.spec_mask()
}

/// The status byte with `flag` forced to `on`.
pub open spec fn spec_update_flag(status: u8, flag: StatusFlag, on: bool) -> u8 {
    if on {
        spec_set_bit(status, flag)
    } else {
        spec_unset_bit(status, flag)
    }
}

/// The status byte after the composite Zero/Negative update every load,
/// transfer, increment and logical instruction applies to its result:
/// Zero iff the result is 0, Negative iff bit 7 of the result is set.
/// Carry and Overflow are never touched by this helper.
pub open spec fn spec_update_zero_and_negative(status: u8, result: u8) -> u8 {
    spec_update_flag(
        spec_update_flag(status, StatusFlag::Zero, result == 0),
        StatusFlag::Negative,
        result & 0b1000_0000 != 0,
    )
}

/// Setting or clearing one flag reads back as written, and leaves every
/// other flag alone.
pub proof fn lemma_update_flag(status: u8, flag: StatusFlag, on: bool, other: StatusFlag)
    ensures
        spec_flag_set(spec_update_flag(status, flag, on), flag) == on,
        other != flag ==> spec_flag_set(spec_update_flag(status, flag, on), other) == spec_flag_set(
            status,
            other,
        ),
{
    let m = flag.spec_mask();
    let o = other.spec_mask();
    assert(m == 1 || m == 2 || m == 0x40 || m == 0x80);
    assert(o == 1 || o == 2 || o == 0x40 || o == 0x80);
    if other != flag {
        assert(m & o == 0) by (bit_vector)
            requires
                (m == 1 || m == 2 || m == 0x40 || m == 0x80) && (o == 1 || o == 2 || o == 0x40 || o
                    == 0x80) && m != o,
        ;
    }
    if on {
        assert((status | m) & m != 0) by (bit_vector)
            requires
                m == 1 || m == 2 || m == 0x40 || m == 0x80,
        ;
        assert(m & o == 0 ==> ((status | m) & o == status & o)) by (bit_vector);
    } else {
        assert((status & !m) & m == 0) by (bit_vector);
        assert(m & o == 0 ==> ((status & !m) & o == status & o)) by (bit_vector);
    }
}

/// The Zero/Negative law: after the composite update for a result `r`,
/// Zero is set iff `r == 0`, Negative is set iff bit 7 of `r` is set,
/// and Carry and Overflow keep their previous values.
pub proof fn lemma_update_zero_and_negative(status: u8, r: u8)
    ensures
        spec_flag_set(spec_update_zero_and_negative(status, r), StatusFlag::Zero) == (r == 0),
        spec_flag_set(spec_update_zero_and_negative(status, r), StatusFlag::Negative) == (r
            & 0b1000_0000 != 0),
        spec_flag_set(spec_update_zero_and_negative(status, r), StatusFlag::Carry) == spec_flag_set(
            status,
            StatusFlag::Carry,
        ),
        spec_flag_set(spec_update_zero_and_negative(status, r), StatusFlag::Overflow)
            == spec_flag_set(status, StatusFlag::Overflow),
{
    let s1 = spec_update_flag(status, StatusFlag::Zero, r == 0);
    lemma_update_flag(status, StatusFlag::Zero, r == 0, StatusFlag::Zero);
    lemma_update_flag(status, StatusFlag::Zero, r == 0, StatusFlag::Carry);
    lemma_update_flag(status, StatusFlag::Zero, r == 0, StatusFlag::Overflow);
    lemma_update_flag(s1, StatusFlag::Negative, r & 0b1000_0000 != 0, StatusFlag::Zero);
    lemma_update_flag(s1, StatusFlag::Negative, r & 0b1000_0000 != 0, StatusFlag::Carry);
    lemma_update_flag(s1, StatusFlag::Negative, r & 0b1000_0000 != 0, StatusFlag::Negative);
    lemma_update_flag(s1, StatusFlag::Negative, r & 0b1000_0000 != 0, StatusFlag::Overflow);
}

} // verus!
