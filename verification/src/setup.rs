//! Options and sizes for starting the second phase of a parameter ceremony.

use vstd::arithmetic::power2::lemma2_to64;
use vstd::arithmetic::power2::lemma2_to64_rest;
use vstd::arithmetic::power2::lemma_pow2_strictly_increases;
use vstd::arithmetic::power2::lemma_pow2_unfold;
use vstd::arithmetic::power2::pow2;
use vstd::prelude::*;

verus! {

/// The pairing-friendly curves a ceremony can be run for.
#[derive(Debug, Clone, Copy, PartialEq, Eq)]
pub enum CurveKind {
    Bls12_377,
    BW6,
}

/// What `str::to_lowercase` makes of a string.
pub uninterp spec fn lowercase_of(s: Seq<char>) -> Seq<char>;

/// The curve that a name in lower case stands for.
pub open spec fn curve_named(lower: Seq<char>) -> Option<CurveKind> {
    if lower == "bls12_377"@ {
        Some(CurveKind::Bls12_377)
    } else if lower == "bw6"@ {
        Some(CurveKind::BW6)
    } else {
        None
    }
}

/// What parsing a curve's name gives, for each lower-case form of the name.
pub open spec fn curve_parsed(lower: Seq<char>, r: Result<CurveKind, String>) -> bool {
    match curve_named(lower) {
        Some(kind) => r == Ok::<CurveKind, String>(kind),
        None => r is Err && r->Err_0@ == "unsupported curve."@,
    }
}

/// The curve that a name stands for, whatever the case of its letters.
pub fn curve_from_str(src: &str) -> (r: Result<CurveKind, String>)
    ensures
        curve_parsed(lowercase_of(src@), r),
{
    let lower = to_lowercase(src);
    curve_from_lowercase(lower.as_str())
}

/// The curve that a name already in lower case stands for: `bls12_377` and
/// `bw6` are known, and every other name is refused.
pub fn curve_from_lowercase(lower: &str) -> (r: Result<CurveKind, String>)
    ensures
        curve_parsed(lower@, r),
{
    let name = lower.to_owned();
    if name == "bls12_377".to_owned() {
        Ok(CurveKind::Bls12_377)
    } else if name == "bw6".to_owned() {
        Ok(CurveKind::BW6)
    } else {
        Err("unsupported curve.".to_owned())
    }
}

/// `str::to_lowercase`: the lower-case form of the string, which depends on
/// the string alone.
#[verifier::external_body]
fn to_lowercase(src: &str) -> (r: String)
    ensures
        r@ == lowercase_of(src@),
{
    src.to_lowercase()
}

/// The options of the command that starts the second phase.
#[derive(Debug, Clone)]
pub struct NewOpts {
    help: bool,
    /// The path to the parameters of the first phase.
    pub phase1: String,
    /// The number of coefficients, as a power of two, that the first phase
    /// has left.
    pub phase1_size: u32,
    /// The name of the challenge file to create.
    pub output: String,
    /// The curve to use.
    pub curve_type: CurveKind,
    /// Whether to set up the inner circuit; the outer one otherwise.
    pub is_inner: bool,
}

/// What a set of options says, as plain values.
pub struct NewOptsView {
    pub help: bool,
    pub phase1: Seq<char>,
    pub phase1_size: u32,
    pub output: Seq<char>,
    pub curve_type: CurveKind,
    pub is_inner: bool,
}

impl View for NewOpts {
    type V = NewOptsView;

    closed spec fn view(&self) -> NewOptsView {
        NewOptsView {
            help: self.help,
            phase1: self.phase1@,
            phase1_size: self.phase1_size,
            output: self.output@,
            curve_type: self.curve_type,
            is_inner: self.is_inner,
        }
    }
}

impl NewOpts {
    /// Options with every field given.
    pub fn new(
        help: bool,
        phase1: String,
        phase1_size: u32,
        output: String,
        curve_type: CurveKind,
        is_inner: bool,
    ) -> (r: NewOpts)
        ensures
            r@ == (NewOptsView {
                help,
                phase1: phase1@,
                phase1_size,
                output: output@,
                curve_type,
                is_inner,
            }),
    {
        NewOpts { help, phase1, phase1_size, output, curve_type, is_inner }
    }

    /// Whether the usage text was asked for.
    pub fn help(&self) -> (r: bool)
        ensures
            r == self@.help,
    {
        self.help
    }

    /// The number of coefficients that the first phase has left,
    /// `2^phase1_size`, where a `usize` can hold it.
    pub fn phase1_powers(&self) -> (r: Option<usize>)
        ensures
            match r {
                Some(p) => p == pow2(self@.phase1_size as nat),
                None => pow2(self@.phase1_size as nat) > usize::MAX,
            },
    {
        checked_pow2(self.phase1_size)
    }
}

impl Default for NewOpts {
    /// The options of a run without arguments: the first phase under `phase1`,
    /// the challenge written to `challenge`, on BLS12-377, for the outer
    /// circuit.
    fn default() -> (r: NewOpts)
        ensures
            r@ == (NewOptsView {
                help: false,
                phase1: "phase1"@,
                phase1_size: 0,
                output: "challenge"@,
                curve_type: CurveKind::Bls12_377,
                is_inner: false,
            }),
    {
        NewOpts {
            help: false,
            phase1: "phase1".to_owned(),
            phase1_size: 0,
            output: "challenge".to_owned(),
            curve_type: CurveKind::Bls12_377,
            is_inner: false,
        }
    }
}

/// The largest `k` with `2^k <= x`; zero for zero.
pub open spec fn floor_log2(x: nat) -> nat
    decreases x,
{
    if x <= 1 {
        0
    } else {
        1 + floor_log2(x / 2)
    }
}

/// `2^floor_log2(x)` is at most `x`, and the next power of two is above it.
pub proof fn lemma_floor_log2_bounds(x: nat)
    requires
        x > 0,
    ensures
        pow2(floor_log2(x)) <= x < pow2(floor_log2(x) + 1),
    decreases x,
{
    lemma2_to64();
    if x > 1 {
        lemma_floor_log2_bounds(x / 2);
        lemma_pow2_unfold(floor_log2(x));
        lemma_pow2_unfold(floor_log2(x) + 1);
    }
}

/// The binary logarithm of a positive number, rounded down.
pub fn log_2(x: usize) -> (r: usize)
    requires
        x > 0,
    ensures
        r == floor_log2(x as nat),
        r < usize::BITS,
        pow2(r as nat) <= x < pow2(r as nat + 1),
{
    let mut rest = x;
    let mut r: usize = 0;
    proof {
        lemma2_to64();
    }
    while rest > 1
        invariant
            rest > 0,
            r as nat + floor_log2(rest as nat) == floor_log2(x as nat),
            pow2(r as nat) * rest <= x,
            r < usize::BITS,
        decreases rest,
    {
        proof {
            lemma_pow2_unfold(r as nat + 1);
            assert(pow2(r as nat + 1) * (rest / 2) <= pow2(r as nat) * rest) by (nonlinear_arith)
                requires
                    pow2(r as nat + 1) == 2 * pow2(r as nat),
            ;
            lemma_bits_bound(r as nat + 1, (rest / 2) as nat, x as nat);
        }
        rest = rest / 2;
        r = r + 1;
    }
    proof {
        lemma_floor_log2_bounds(x as nat);
    }
    r
}

/// A number that holds `2^k` times a positive factor has more than `k` bits.
proof fn lemma_bits_bound(k: nat, factor: nat, x: nat)
    requires
        factor > 0,
        pow2(k) * factor <= x,
        x <= usize::MAX,
    ensures
        k < usize::BITS,
{
    if k >= usize::BITS {
        lemma2_to64();
        lemma2_to64_rest();
        if k > 64 {
            lemma_pow2_strictly_increases(64, k);
        }
        assert(pow2(k) * factor >= pow2(k)) by (nonlinear_arith)
            requires
                factor > 0,
        ;
        if usize::BITS == 32 {
            if k > 32 {
                lemma_pow2_strictly_increases(32, k);
            }
        }
    }
}

/// `2^power`, where a `usize` can hold it.
pub fn checked_pow2(power: u32) -> (r: Option<usize>)
    ensures
        match r {
            Some(p) => p == pow2(power as nat),
            None => pow2(power as nat) > usize::MAX,
        },
{
    let mut p: usize = 1;
    let mut i: u32 = 0;
    proof {
        lemma2_to64();
    }
    while i < power
        invariant
            i <= power,
            p == pow2(i as nat),
        decreases power - i,
    {
        proof {
            lemma_pow2_unfold(i as nat + 1);
        }
        if p > usize::MAX / 2 {
            proof {
                if i + 1 < power {
                    lemma_pow2_strictly_increases(i as nat + 1, power as nat);
                }
            }
            return None;
        }
        p = p * 2;
        i = i + 1;
    }
    Some(p)
}

/// The larger of the number of constraints and the number of variables with
/// the constant one.
pub open spec fn ceremony_size_of(
    num_constraints: nat,
    num_private_variables: nat,
    num_public_variables: nat,
) -> nat {
    let variables = num_private_variables + num_public_variables + 1;
    if num_constraints >= variables {
        num_constraints
    } else {
        variables
    }
}

/// The size of the second phase for a circuit with the given counts: the
/// larger of the number of constraints and the number of variables with the
/// constant one. The size would be rounded up to a power of two if it were
/// below the power of two of its own logarithm, which it never is.
pub fn ceremony_size(
    num_constraints: usize,
    num_private_variables: usize,
    num_public_variables: usize,
) -> (r: usize)
    requires
        num_private_variables + num_public_variables + 1 <= usize::MAX,
    ensures
        r == ceremony_size_of(
            num_constraints as nat,
            num_private_variables as nat,
            num_public_variables as nat,
        ),
{
    let variables = num_private_variables + num_public_variables + 1;
    let phase2_size = if num_constraints >= variables {
        num_constraints
    } else {
        variables
    };
    let power = log_2(phase2_size);
    match checked_pow2(power as u32) {
        Some(p) => {
            if phase2_size < p {
                p * 2
            } else {
                phase2_size
            }
        },
        None => phase2_size,
    }
}

} // verus!
