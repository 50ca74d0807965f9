use vstd::prelude::*;

verus! {

/// A size with its unit, in powers of 1024.
#[derive(Clone, Copy, Debug)]
pub enum LogSize {
    B(usize),
    KB(usize),
    MB(usize),
    GB(usize),
    TB(usize),
    EB(usize),
}

impl LogSize {
    /// How many bytes one unit of this size holds.
    pub open spec fn unit(self) -> int {
        match self {
            LogSize::B(_) => 1int,
            LogSize::KB(_) => 1024int,
            LogSize::MB(_) => 1_048_576int,
            LogSize::GB(_) => 1_073_741_824int,
            LogSize::TB(_) => 1_099_511_627_776int,
            LogSize::EB(_) => 1_125_899_906_842_624int,
        }
    }

    /// The number in front of the unit.
    pub open spec fn count(self) -> int {
        match self {
            LogSize::B(n) => n as int,
            LogSize::KB(n) => n as int,
            LogSize::MB(n) => n as int,
            LogSize::GB(n) => n as int,
            LogSize::TB(n) => n as int,
            LogSize::EB(n) => n as int,
        }
    }

    /// The size in bytes, as a mathematical integer.
    pub open spec fn bytes(self) -> int {
        self.count() * self.unit()
    }

    /// The size in bytes, if it fits in `usize`.
    pub fn checked_len(&self) -> (len: Option<usize>)
        ensures
            match len {
                Some(n) => n == self.bytes(),
                None => self.bytes() > usize::MAX,
            },
    {
        let (count, unit): (usize, u128) = match self {
            LogSize::B(n) => (*n, 1),
            LogSize::KB(n) => (*n, 1024),
            LogSize::MB(n) => (*n, 1_048_576),
            LogSize::GB(n) => (*n, 1_073_741_824),
            LogSize::TB(n) => (*n, 1_099_511_627_776),
            LogSize::EB(n) => (*n, 1_125_899_906_842_624),
        };
        assert(count * unit <= 0xffff_ffff_ffff_ffff * 0x4_0000_0000_0000) by (nonlinear_arith)
            requires
                0 <= count <= 0xffff_ffff_ffff_ffff,
                0 <= unit <= 0x4_0000_0000_0000,
        ;
        let wide: u128 = (count as u128) * unit;
        if wide <= usize::MAX as u128 {
            Some(wide as usize)
        } else {
            None
        }
    }

    /// The size in bytes.
    pub fn get_len(&self) -> (len: usize)
        requires
            self.bytes() <= usize::MAX,
        ensures
            len == self.bytes(),
    {
        match self.checked_len() {
            Some(n) => n,
            None => 0,
        }
    }
}

} // verus!
