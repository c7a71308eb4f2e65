use vstd::prelude::*;

verus! {

/// A compounding period.
#[derive(Clone, Copy, Debug, PartialEq, Eq, Structural)]
pub enum Period {
    Daily,
    Monthly,
    Yearly,
    FiveYear,
    TenYear,
}

/// A positive rational exponent `num / den`.
#[derive(Clone, Copy, Debug, PartialEq, Eq, Structural)]
pub struct Exponent {
    pub num: u32,
    pub den: u32,
}

impl Exponent {
    pub open spec fn positive(self) -> bool {
        self.num > 0 && self.den > 0
    }

    /// Whether raising to `self` and then to `other` is raising to `total`.
    pub open spec fn then_is(self, other: Exponent, total: Exponent) -> bool {
        self.num * other.num * total.den == total.num * self.den * other.den
    }

    /// The exponent 1.
    pub open spec fn is_one(self) -> bool {
        self.num == self.den
    }

    pub open spec fn one() -> Exponent {
        Exponent { num: 1, den: 1 }
    }

    /// The exponent that undoes this one.
    pub open spec fn inverse(self) -> Exponent {
        Exponent { num: self.den, den: self.num }
    }
}

/// The exponent that takes the rate of period `from` to the rate of period `to`,
/// as a fraction that is not reduced.
pub open spec fn converted(from: Period, to: Period) -> Exponent {
    Exponent {
        num: (to.years().num * from.years().den) as u32,
        den: (to.years().den * from.years().num) as u32,
    }
}

/// The five periods, shortest first.
pub open spec fn periods() -> Seq<Period> {
    seq![Period::Daily, Period::Monthly, Period::Yearly, Period::FiveYear, Period::TenYear]
}

/// The place of a period in `periods()`.
pub open spec fn period_index(p: Period) -> int {
    match p {
        Period::Daily => 0,
        Period::Monthly => 1,
        Period::Yearly => 2,
        Period::FiveYear => 3,
        Period::TenYear => 4,
    }
}

impl Period {
    /// The length of the period in years: the rate of the period is the yearly rate
    /// raised to this exponent.
    pub open spec fn years(self) -> Exponent {
        match self {
            Period::Daily => Exponent { num: 1, den: 365 },
            Period::Monthly => Exponent { num: 1, den: 12 },
            Period::Yearly => Exponent { num: 1, den: 1 },
            Period::FiveYear => Exponent { num: 5, den: 1 },
            Period::TenYear => Exponent { num: 10, den: 1 },
        }
    }

    /// The periods, shortest first.
    pub fn all() -> (r: Vec<Period>)
        ensures
            r@ == periods(),
    {
        let r = vec![Period::Daily, Period::Monthly, Period::Yearly, Period::FiveYear, Period::TenYear];
        assert(r@ =~= periods());
        r
    }

    /// The exponent that takes the yearly rate to the rate of this period.
    pub fn exponent(self) -> (e: Exponent)
        ensures
            e == self.years(),
            e.positive(),
            e.num <= 10 && e.den <= 365,
    {
        match self {
            Period::Daily => Exponent { num: 1, den: 365 },
            Period::Monthly => Exponent { num: 1, den: 12 },
            Period::Yearly => Exponent { num: 1, den: 1 },
            Period::FiveYear => Exponent { num: 5, den: 1 },
            Period::TenYear => Exponent { num: 10, den: 1 },
        }
    }

    /// The exponent that takes the rate of this period back to the yearly rate.
    pub fn inverse_exponent(self) -> (e: Exponent)
        ensures
            e == self.years().inverse(),
            e.positive(),
    {
        let y = self.exponent();
        Exponent { num: y.den, den: y.num }
    }
}

/// The exponent that takes the rate of period `from` to the rate of period `to`.
pub fn conversion(from: Period, to: Period) -> (e: Exponent)
    ensures
        e == converted(from, to),
        e.positive(),
{
    let f = from.exponent();
    let t = to.exponent();
    assert(0 < t.num * f.den <= 3650 && 0 < t.den * f.num <= 3650) by (nonlinear_arith)
        requires
            0 < t.num <= 10 && 0 < f.den <= 365 && 0 < t.den <= 365 && 0 < f.num <= 10,
    ;
    Exponent { num: t.num * f.den, den: t.den * f.num }
}

/// Raising the yearly rate to a period's exponent and the result to the inverse
/// exponent gives the yearly rate again, in either order: the two exponents
/// multiply to one.
pub proof fn lemma_exponent_round_trip(p: Period)
    ensures
        p.years().positive(),
        p.years().then_is(p.years().inverse(), Exponent::one()),
        p.years().inverse().then_is(p.years(), Exponent::one()),
{
    let e = p.years();
    assert(e.num * e.den * 1 == 1 * e.den * e.num) by (nonlinear_arith);
}

/// Editing the rate of period `from` sets the yearly rate to that rate raised to
/// the inverse exponent of `from`; the rate then shown for period `to` is the
/// yearly rate raised to the exponent of `to`. Together that is the conversion
/// from `from` to `to`, which is one where `from` and `to` are the same period.
pub proof fn lemma_edit_then_derive(from: Period, to: Period)
    ensures
        from.years().inverse().then_is(to.years(), converted(from, to)),
        converted(from, from).is_one(),
{
    let a = from.years().den as int;
    let b = from.years().num as int;
    let c = to.years().num as int;
    let d = to.years().den as int;
    assert(a * c * (d * b) == (c * a) * b * d) by (nonlinear_arith);
    assert(b * a == a * b) by (nonlinear_arith);
}

} // verus!
