//! Quantities for recipe components: a unit tag with an amount, and a
//! canonicalization to ounces.
//!
//! Amounts are held in thousandths of the unit (so `Oz(1500)` is one and a
//! half ounces), which keeps the conversion arithmetic exact enough for
//! recipe use while staying in plain integers. The conversion constants are
//! scaled the same way: a milliliter is 0.033814 oz, a shot 1.5 oz, a liter
//! 33.814 oz, a handle 1.5 liters, a teaspoon 4.92892 ml, a tablespoon 3
//! teaspoons, and a dash — like "to taste" — canonicalizes to a nominal
//! 0.1 oz.

use vstd::prelude::*;

verus! {

/// A tagged quantity: a unit with an amount in thousandths of that unit,
/// or `Taste` for an unmeasured amount.
#[derive(Clone, Copy, Debug, PartialEq, Eq, Structural)]
pub enum Measure {
    Oz(u64),
    Ml(u64),
    Shot(u64),
    Liter(u64),
    Handle(u64),
    Dash(u64),
    Teaspoon(u64),
    Tablespoon(u64),
    Taste,
}

impl Default for Measure {
    /// The default quantity is `Taste`.
    fn default() -> (r: Self)
        ensures
            r == Measure::Taste,
    {
        Measure::Taste
    }
}

impl Measure {
    /// The ounce-equivalent of this quantity, in thousandths of an ounce,
    /// with each conversion step in truncating integer arithmetic: through
    /// liters for a handle and through milliliters for spoons.
    pub open spec fn oz_milli_spec(self) -> int {
        match self {
            Measure::Oz(m) => m as int,
            Measure::Ml(m) => (m * 33814) / 1000000,
            Measure::Shot(m) => (m * 3) / 2,
            Measure::Liter(m) => (m * 33814) / 1000,
            Measure::Handle(m) => (((m * 3) / 2) * 33814) / 1000,
            Measure::Dash(m) => 100,
            Measure::Teaspoon(m) => (((m * 492892) / 100000) * 33814) / 1000000,
            Measure::Tablespoon(m) => ((((m * 3) * 492892) / 100000) * 33814) / 1000000,
            Measure::Taste => 100,
        }
    }

    /// Whether the ounce-equivalent fits a 64-bit amount; only quantities
    /// whose conversion scales the amount up can fall outside it.
    pub open spec fn fits_oz(self) -> bool {
        match self {
            Measure::Shot(m) => (m * 3) / 2 <= u64::MAX,
            Measure::Liter(m) => (m * 33814) / 1000 <= u64::MAX,
            Measure::Handle(m) => (((m * 3) / 2) * 33814) / 1000 <= u64::MAX,
            _ => true,
        }
    }

    /// Canonicalizes any quantity to an ounce-denominated equivalent using
    /// the fixed conversion constants; `Dash` and `Taste` both canonicalize
    /// to the nominal 0.1 oz.
    pub fn to_oz(self) -> (r: Measure)
        requires
            self.fits_oz(),
        ensures
            r matches Measure::Oz(v) && v as int == self.oz_milli_spec(),
    {
        match self {
            Measure::Oz(m) => Measure::Oz(m),
            Measure::Ml(m) => {
                let v: u128 = (m as u128) * 33814 / 1000000;
                proof {
                    assert((m as int) * 33814 <= (u64::MAX as int) * 33814) by (nonlinear_arith)
                        requires
                            m <= u64::MAX,
                    ;
                    assert(((m as int) * 33814) / 1000000 <= u64::MAX as int);
                }
                Measure::Oz(v as u64)
            },
            Measure::Shot(m) => {
                let v: u128 = (m as u128) * 3 / 2;
                Measure::Oz(v as u64)
            },
            Measure::Liter(m) => {
                let v: u128 = (m as u128) * 33814 / 1000;
                Measure::Oz(v as u64)
            },
            Measure::Handle(m) => {
                let l: u128 = (m as u128) * 3 / 2;
                let v: u128 = l * 33814 / 1000;
                Measure::Oz(v as u64)
            },
            Measure::Dash(_) => Measure::Oz(100),
            Measure::Teaspoon(m) => {
                let ml: u128 = (m as u128) * 492892 / 100000;
                let v: u128 = ml * 33814 / 1000000;
                proof {
                    assert((m as int) * 492892 <= (u64::MAX as int) * 492892) by (nonlinear_arith)
                        requires
                            m <= u64::MAX,
                    ;
                    assert(((m as int) * 492892) / 100000 * 33814 <= (u64::MAX as int) * 5
                        * 33814) by (nonlinear_arith)
                        requires
                            ((m as int) * 492892) / 100000 <= (u64::MAX as int) * 5,
                    ;
                    assert(v <= u64::MAX);
                }
                Measure::Oz(v as u64)
            },
            Measure::Tablespoon(m) => {
                let ml: u128 = (m as u128) * 3 * 492892 / 100000;
                let v: u128 = ml * 33814 / 1000000;
                proof {
                    assert((m as int) * 3 * 492892 <= (u64::MAX as int) * 3 * 492892) by (nonlinear_arith)
                        requires
                            m <= u64::MAX,
                    ;
                    assert(((m as int) * 3 * 492892) / 100000 * 33814 <= (u64::MAX as int) * 15
                        * 33814) by (nonlinear_arith)
                        requires
                            ((m as int) * 3 * 492892) / 100000 <= (u64::MAX as int) * 15,
                    ;
                    assert(v <= u64::MAX);
                }
                Measure::Oz(v as u64)
            },
            Measure::Taste => Measure::Oz(100),
        }
    }

    /// One quantity of each unit, in declaration order, with a zero amount;
    /// stands in for variant reflection when a UI needs a dropdown of units.
    pub fn all_units() -> (r: Vec<Measure>)
        ensures
            r@ == seq![
                Measure::Oz(0u64),
                Measure::Ml(0u64),
                Measure::Shot(0u64),
                Measure::Liter(0u64),
                Measure::Handle(0u64),
                Measure::Dash(0u64),
                Measure::Teaspoon(0u64),
                Measure::Tablespoon(0u64),
                Measure::Taste,
            ],
    {
        let mut v: Vec<Measure> = Vec::new();
        v.push(Measure::Oz(0));
        v.push(Measure::Ml(0));
        v.push(Measure::Shot(0));
        v.push(Measure::Liter(0));
        v.push(Measure::Handle(0));
        v.push(Measure::Dash(0));
        v.push(Measure::Teaspoon(0));
        v.push(Measure::Tablespoon(0));
        v.push(Measure::Taste);
        proof {
            assert(v@ =~= seq![
                Measure::Oz(0u64),
                Measure::Ml(0u64),
                Measure::Shot(0u64),
                Measure::Liter(0u64),
                Measure::Handle(0u64),
                Measure::Dash(0u64),
                Measure::Teaspoon(0u64),
                Measure::Tablespoon(0u64),
                Measure::Taste,
            ]);
        }
        v
    }

    /// The unit's display label.
    pub fn unit_label(&self) -> (r: &'static str)
        ensures
            r@ == self.unit_label_spec(),
    {
        match self {
            Measure::Oz(_) => "oz",
            Measure::Ml(_) => "ml",
            Measure::Shot(_) => "shots",
            Measure::Liter(_) => "liters",
            Measure::Handle(_) => "handles",
            Measure::Dash(_) => "dashes",
            Measure::Teaspoon(_) => "teaspoons",
            Measure::Tablespoon(_) => "tablespoons",
            Measure::Taste => "to taste",
        }
    }

    pub open spec fn unit_label_spec(&self) -> Seq<char> {
        match self {
            Measure::Oz(_) => "oz"@,
            Measure::Ml(_) => "ml"@,
            Measure::Shot(_) => "shots"@,
            Measure::Liter(_) => "liters"@,
            Measure::Handle(_) => "handles"@,
            Measure::Dash(_) => "dashes"@,
            Measure::Teaspoon(_) => "teaspoons"@,
            Measure::Tablespoon(_) => "tablespoons"@,
            Measure::Taste => "to taste"@,
        }
    }
}

} // verus!
