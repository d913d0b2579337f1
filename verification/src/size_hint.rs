//! Bounds on the number of bytes that a body has yet to yield.

use vstd::prelude::*;

verus! {

/// The meaning of a [`SizeHint`]: the number of bytes still to come is at least `lower` and, where
/// `upper` is known, at most `upper`.
pub struct Bounds {
    pub lower: nat,
    pub upper: Option<nat>,
}

impl Bounds {
    /// Nothing is known.
    pub open spec fn unknown() -> Bounds {
        Bounds { lower: 0, upper: None }
    }

    /// Exactly `n` bytes are still to come.
    pub open spec fn exact(n: nat) -> Bounds {
        Bounds { lower: n, upper: Some(n) }
    }

    /// Whether `n` bytes may still be to come.
    pub open spec fn admits(self, n: nat) -> bool {
        &&& self.lower <= n
        &&& self.upper matches Some(upper) ==> n <= upper
    }

    /// Whether some number of bytes may still be to come.
    pub open spec fn well_formed(self) -> bool {
        self.upper matches Some(upper) ==> self.lower <= upper
    }

    /// The bounds of two streams that follow each other.
    pub open spec fn plus(self, rhs: Bounds) -> Bounds {
        Bounds {
            lower: self.lower + rhs.lower,
            upper: match (self.upper, rhs.upper) {
                (Some(a), Some(b)) => Some(a + b),
                _ => None,
            },
        }
    }

    /// Whether the bounds can be held by a [`SizeHint`].
    pub open spec fn representable(self) -> bool {
        &&& self.lower <= u64::MAX
        &&& self.upper matches Some(upper) ==> upper <= u64::MAX
    }
}

/// A body size hint.
///
/// The default has a `lower` of 0 and an unknown `upper`.
#[derive(Debug, Clone, Copy)]
pub struct SizeHint {
    lower: u64,
    upper: Option<u64>,
}

impl View for SizeHint {
    type V = Bounds;

    closed spec fn view(&self) -> Bounds {
        Bounds {
            lower: self.lower as nat,
            upper: match self.upper {
                Some(upper) => Some(upper as nat),
                None => None,
            },
        }
    }
}

impl SizeHint {
    #[verifier::type_invariant]
    spec fn bounds_are_ordered(self) -> bool {
        self@.well_formed()
    }

    /// Returns a hint that says nothing.
    pub fn new() -> (hint: SizeHint)
        ensures
            hint@ == Bounds::unknown(),
    {
        SizeHint { lower: 0, upper: None }
    }

    /// Returns a hint with both bounds set to the given value.
    pub fn with_exact(value: u64) -> (hint: SizeHint)
        ensures
            hint@ == Bounds::exact(value as nat),
    {
        SizeHint { lower: value, upper: Some(value) }
    }

    /// Returns the lower bound.
    pub fn lower(&self) -> (lower: u64)
        ensures
            lower == self@.lower,
            self@.well_formed(),
    {
        proof {
            use_type_invariant(self);
        }
        self.lower
    }

    /// Returns the upper bound, or `None` if it is unknown.
    pub fn upper(&self) -> (upper: Option<u64>)
        ensures
            match upper {
                Some(upper) => self@.upper == Some(upper as nat),
                None => self@.upper is None,
            },
            self@.well_formed(),
    {
        proof {
            use_type_invariant(self);
        }
        self.upper
    }

    /// Sets the lower bound, which may not exceed the upper one.
    pub fn set_lower(&mut self, value: u64)
        requires
            old(self)@.upper matches Some(upper) ==> value <= upper,
        ensures
            final(self)@ == (Bounds { lower: value as nat, upper: old(self)@.upper }),
    {
        *self = SizeHint { lower: value, upper: self.upper };
    }

    /// Sets the upper bound, which may not be less than the lower one.
    pub fn set_upper(&mut self, value: u64)
        requires
            old(self)@.lower <= value,
        ensures
            final(self)@ == (Bounds { lower: old(self)@.lower, upper: Some(value as nat) }),
    {
        *self = SizeHint { lower: self.lower, upper: Some(value) };
    }

    /// Sets both bounds to the given value.
    pub fn set_exact(&mut self, value: u64)
        ensures
            final(self)@ == Bounds::exact(value as nat),
    {
        *self = SizeHint { lower: value, upper: Some(value) };
    }

    /// Returns the hint of two streams that follow each other, or `None` where one of its bounds
    /// exceeds `u64::MAX`.
    pub fn checked_add(self, rhs: SizeHint) -> (sum: Option<SizeHint>)
        ensures
            sum is Some <==> self@.plus(rhs@).representable(),
            sum matches Some(sum) ==> sum@ == self@.plus(rhs@),
    {
        proof {
            use_type_invariant(&self);
            use_type_invariant(&rhs);
        }
        let lower = match self.lower.checked_add(rhs.lower) {
            Some(lower) => lower,
            None => return None,
        };
        match (self.upper, rhs.upper) {
            (Some(a), Some(b)) => match a.checked_add(b) {
                Some(upper) => Some(SizeHint { lower, upper: Some(upper) }),
                None => None,
            },
            _ => Some(SizeHint { lower, upper: None }),
        }
    }
}

impl Default for SizeHint {
    fn default() -> (hint: SizeHint)
        ensures
            hint@ == Bounds::unknown(),
    {
        SizeHint::new()
    }
}

/// The sum of two hints bounds the bytes of two streams that follow each other.
pub proof fn sum_admits_concatenation(a: Bounds, b: Bounds, n: nat, m: nat)
    requires
        a.admits(n),
        b.admits(m),
    ensures
        a.plus(b).admits(n + m),
{
}

/// The sum of two hints admits nothing but what the two streams may yield together.
pub proof fn sum_admits_only_concatenations(a: Bounds, b: Bounds, total: nat)
    requires
        a.well_formed(),
        b.well_formed(),
        a.plus(b).admits(total),
    ensures
        exists|n: nat, m: nat|
            n + m == total && #[trigger] a.admits(n) && #[trigger] b.admits(m),
{
    let spare = (total - a.lower - b.lower) as nat;
    let n = match a.upper {
        Some(upper) => if a.lower + spare <= upper {
            a.lower + spare
        } else {
            upper
        },
        None => a.lower + spare,
    };
    let m = (total - n) as nat;
    assert(n + m == total && a.admits(n) && b.admits(m));
}

/// A new hint, and a default one, has a lower bound of 0 and no upper bound.
pub proof fn new_hints_are_open(hint: SizeHint, lower: u64, upper: Option<u64>)
    requires
        call_ensures(SizeHint::new, (), hint) || call_ensures(
            <SizeHint as Default>::default,
            (),
            hint,
        ),
        call_ensures(SizeHint::lower, (&hint,), lower),
        call_ensures(SizeHint::upper, (&hint,), upper),
    ensures
        lower == 0,
        upper is None,
{
}

/// A hint made with an exact value has that value as both bounds.
pub proof fn exact_hints_are_exact(value: u64, hint: SizeHint, lower: u64, upper: Option<u64>)
    requires
        call_ensures(SizeHint::with_exact, (value,), hint),
        call_ensures(SizeHint::lower, (&hint,), lower),
        call_ensures(SizeHint::upper, (&hint,), upper),
    ensures
        lower == value,
        upper == Some(value),
{
}

/// The bounds that are read are those that the hint stands for.
pub proof fn read_bounds_are_those_of_the_hint(hint: SizeHint, lower: u64, upper: Option<u64>)
    requires
        call_ensures(SizeHint::lower, (&hint,), lower),
        call_ensures(SizeHint::upper, (&hint,), upper),
    ensures
        hint@.lower == lower,
        match upper {
            Some(upper) => hint@.upper == Some(upper as nat) && lower <= upper,
            None => hint@.upper is None,
        },
{
}

/// What is set is what is read, and the other bound stays.
pub proof fn set_bounds_are_read(
    value: u64,
    lower: u64,
    upper: Option<u64>,
    lower_post: u64,
    upper_post: Option<u64>,
)
    ensures
        forall|hint: &mut SizeHint|
            {
                &&& #[trigger] call_ensures(SizeHint::set_lower, (hint, value), ())
                &&& call_ensures(SizeHint::upper, (&*hint,), upper)
                &&& call_ensures(SizeHint::lower, (&*final(hint),), lower_post)
                &&& call_ensures(SizeHint::upper, (&*final(hint),), upper_post)
            } ==> lower_post == value && upper_post == upper,
        forall|hint: &mut SizeHint|
            {
                &&& #[trigger] call_ensures(SizeHint::set_upper, (hint, value), ())
                &&& call_ensures(SizeHint::lower, (&*hint,), lower)
                &&& call_ensures(SizeHint::lower, (&*final(hint),), lower_post)
                &&& call_ensures(SizeHint::upper, (&*final(hint),), upper_post)
            } ==> lower_post == lower && upper_post == Some(value),
        forall|hint: &mut SizeHint|
            {
                &&& #[trigger] call_ensures(SizeHint::set_exact, (hint, value), ())
                &&& call_ensures(SizeHint::lower, (&*final(hint),), lower_post)
                &&& call_ensures(SizeHint::upper, (&*final(hint),), upper_post)
            } ==> lower_post == value && upper_post == Some(value),
{
}

/// The bounds of a sum are the sums of the bounds, an unknown upper bound being unknown in the sum;
/// there is no sum exactly if one of its bounds exceeds `u64::MAX`.
pub proof fn sums_add_bounds(a: SizeHint, b: SizeHint, sum: Option<SizeHint>)
    requires
        call_ensures(SizeHint::checked_add, (a, b), sum),
    ensures
        match sum {
            Some(sum) => {
                &&& sum@.lower == a@.lower + b@.lower
                &&& sum@.lower <= u64::MAX
                &&& match (a@.upper, b@.upper) {
                    (Some(x), Some(y)) => sum@.upper == Some(x + y) && x + y <= u64::MAX,
                    _ => sum@.upper is None,
                }
            },
            None => {
                ||| a@.lower + b@.lower > u64::MAX
                ||| a@.upper is Some && b@.upper is Some && a@.upper->0 + b@.upper->0 > u64::MAX
            },
        },
{
}

/// A hint admits the numbers from its lower bound on, up to its upper bound if that is known.
pub proof fn hints_admit_what_is_between_their_bounds(bounds: Bounds, n: nat)
    ensures
        bounds.admits(n) <==> bounds.lower <= n && (bounds.upper is None || n <= bounds.upper->0),
{
}

/// Hints can be made, read and added whatever they hold; a bound can be set unless that would put
/// the lower one above the upper one.
pub proof fn hints_can_be_used_freely(value: u64, a: SizeHint, b: SizeHint)
    ensures
        call_requires(SizeHint::new, ()),
        call_requires(SizeHint::with_exact, (value,)),
        call_requires(SizeHint::lower, (&a,)),
        call_requires(SizeHint::upper, (&a,)),
        call_requires(SizeHint::checked_add, (a, b)),
        forall|hint: &mut SizeHint| #[trigger] call_requires(SizeHint::set_exact, (hint, value)),
        forall|hint: &mut SizeHint|
            ((*hint)@.upper is None || value <= (*hint)@.upper->0) ==> #[trigger] call_requires(
                SizeHint::set_lower,
                (hint, value),
            ),
        forall|hint: &mut SizeHint|
            (*hint)@.lower <= value ==> #[trigger] call_requires(
                SizeHint::set_upper,
                (hint, value),
            ),
{
}

} // verus!
