//! Screen resolutions as an aspect ratio in lowest terms and a scale.

use num_rational::Ratio;
use vstd::arithmetic::div_mod::{
    lemma_add_mod_noop, lemma_div_by_multiple, lemma_mod_multiples_basic, lemma_small_mod,
};
use vstd::prelude::*;

verus! {

/// An aspect ratio.
#[derive(Debug, Clone, Copy, PartialEq, Eq, Structural)]
pub struct ScreenResolutionRatio {
    pub width: u16,
    pub height: u16,
}

/// A resolution: `scale` times the width and the height of `ratio`.
#[derive(Debug, Clone, Copy, PartialEq, Eq, Structural)]
pub struct ScreenResolution {
    pub ratio: ScreenResolutionRatio,
    pub scale: u16,
}

/// Whether `d` divides `n`.
pub open spec fn divides(d: nat, n: nat) -> bool {
    n % d == 0
}

/// Whether `a` and `b` have no common divisor but 1.
pub open spec fn coprime(a: nat, b: nat) -> bool {
    forall|k: nat| k > 1 ==> !(#[trigger] divides(k, a) && divides(k, b))
}

/// Calls `num_rational::Ratio::new` and reads the numerator and the
/// denominator of what it made. `Ratio::new` puts the fraction into lowest
/// terms: the result has the value of `numer / denom`, its denominator is
/// positive, and its two parts have no common divisor but 1. A zero
/// denominator makes `Ratio::new` panic, so it is not admitted.
#[verifier::external_body]
fn lowest_terms(numer: u16, denom: u16) -> (reduced: (u16, u16))
    requires
        denom != 0,
    ensures
        reduced.1 > 0,
        reduced.0 * denom == reduced.1 * numer,
        coprime(reduced.0 as nat, reduced.1 as nat),
{
    let ratio = Ratio::new(numer, denom);
    (*ratio.numer(), *ratio.denom())
}

/// The sum of two multiples of `k` is a multiple of `k`.
proof fn lemma_sum_of_multiples(x: int, y: int, k: int)
    requires
        k > 0,
        x % k == 0,
        y % k == 0,
    ensures
        (x + y) % k == 0,
{
    lemma_add_mod_noop(x, y, k);
    lemma_small_mod(0, k as nat);
}

/// Two pairs of numbers in the same proportion, the first of them without a
/// common divisor: the second pair is a multiple of the first. The factor is
/// returned.
pub proof fn lemma_multiple_of_lowest_terms(n: nat, d: nat, w: nat, h: nat) -> (k: nat)
    requires
        n > 0,
        d > 0,
        coprime(n, d),
        n * h == d * w,
    ensures
        w == n * k,
        h == d * k,
    decreases n + d,
{
    if n == d {
        assert(n == 1) by {
            if n > 1 {
                assert(divides(n, n) && divides(n, d));
            }
        }
        assert(w == h) by (nonlinear_arith)
            requires
                n == 1,
                d == 1,
                n * h == d * w,
        ;
        assert(w == n * w && h == d * w) by (nonlinear_arith)
            requires
                n == 1,
                d == 1,
                w == h,
        ;
        w
    } else if n > d {
        let m = (n - d) as nat;
        assert(w >= h) by (nonlinear_arith)
            requires
                n * h == d * w,
                n > d,
                d > 0,
        ;
        let v = (w - h) as nat;
        assert(m * h == d * v) by (nonlinear_arith)
            requires
                n * h == d * w,
                m == n - d,
                v == w - h,
        ;
        assert(coprime(m, d)) by {
            assert forall|k: nat| k > 1 implies !(#[trigger] divides(k, m) && divides(k, d)) by {
                if divides(k, m) && divides(k, d) {
                    lemma_sum_of_multiples(m as int, d as int, k as int);
                    assert(divides(k, n));
                }
            }
        }
        let k = lemma_multiple_of_lowest_terms(m, d, v, h);
        assert(w == n * k) by (nonlinear_arith)
            requires
                v == m * k,
                h == d * k,
                m == n - d,
                v == w - h,
        ;
        k
    } else {
        let m = (d - n) as nat;
        assert(h >= w) by (nonlinear_arith)
            requires
                n * h == d * w,
                d > n,
                n > 0,
        ;
        let v = (h - w) as nat;
        assert(n * v == m * w) by (nonlinear_arith)
            requires
                n * h == d * w,
                m == d - n,
                v == h - w,
        ;
        assert(coprime(n, m)) by {
            assert forall|k: nat| k > 1 implies !(#[trigger] divides(k, n) && divides(k, m)) by {
                if divides(k, n) && divides(k, m) {
                    lemma_sum_of_multiples(m as int, n as int, k as int);
                    assert(divides(k, d));
                }
            }
        }
        let k = lemma_multiple_of_lowest_terms(n, m, w, v);
        assert(h == d * k) by (nonlinear_arith)
            requires
                w == n * k,
                v == m * k,
                m == d - n,
                v == h - w,
        ;
        k
    }
}

impl ScreenResolution {
    /// The resolution with the aspect ratio `width : height` at `scale`.
    pub fn new(width: u16, height: u16, scale: u16) -> (resolution: Self)
        ensures
            resolution == (ScreenResolution {
                ratio: ScreenResolutionRatio { width, height },
                scale,
            }),
    {
        Self { ratio: ScreenResolutionRatio { width, height }, scale }
    }

    /// The width in pixels, as a ghost value.
    pub open spec fn pixel_width(&self) -> int {
        self.ratio.width * self.scale
    }

    /// The height in pixels, as a ghost value.
    pub open spec fn pixel_height(&self) -> int {
        self.ratio.height * self.scale
    }

    /// The width in pixels. It has to fit into 16 bits.
    pub fn width(&self) -> (pixels: u16)
        requires
            self.pixel_width() <= u16::MAX,
        ensures
            pixels == self.pixel_width(),
    {
        self.ratio.width * self.scale
    }

    /// The height in pixels. It has to fit into 16 bits.
    pub fn height(&self) -> (pixels: u16)
        requires
            self.pixel_height() <= u16::MAX,
        ensures
            pixels == self.pixel_height(),
    {
        self.ratio.height * self.scale
    }

    /// The resolution of a screen that is `resolution.0` pixels wide and
    /// `resolution.1` pixels high, neither of them zero: the aspect ratio in
    /// lowest terms, and the scale that gives the pixels back.
    pub fn from_tuple(resolution: &(u16, u16)) -> (reduced: Self)
        requires
            resolution.0 > 0,
            resolution.1 > 0,
        ensures
            reduced.pixel_width() == resolution.0,
            reduced.pixel_height() == resolution.1,
            coprime(reduced.ratio.width as nat, reduced.ratio.height as nat),
    {
        let width: u16 = resolution.0;
        let height: u16 = resolution.1;
        let (width_reduced, height_reduced) = lowest_terms(width, height);
        proof {
            assert(width_reduced > 0) by (nonlinear_arith)
                requires
                    width_reduced * height == height_reduced * width,
                    height_reduced > 0,
                    width > 0,
            ;
            let k = lemma_multiple_of_lowest_terms(
                width_reduced as nat,
                height_reduced as nat,
                width as nat,
                height as nat,
            );
            lemma_div_by_multiple(k as int, width_reduced as int);
            assert(width_reduced * k == k * width_reduced) by (nonlinear_arith);
            assert(width as int / width_reduced as int == k);
        }
        ScreenResolution::new(width_reduced, height_reduced, width / width_reduced)
    }
}

/// A screen has one resolution only: two resolutions that give the same
/// pixels, each with its ratio in lowest terms, are the same resolution. So
/// what `from_tuple` returns is told by its contract.
pub proof fn lemma_resolution_unique(a: ScreenResolution, b: ScreenResolution)
    requires
        a.pixel_width() == b.pixel_width(),
        a.pixel_height() == b.pixel_height(),
        a.pixel_width() > 0,
        a.pixel_height() > 0,
        coprime(a.ratio.width as nat, a.ratio.height as nat),
        coprime(b.ratio.width as nat, b.ratio.height as nat),
    ensures
        a == b,
{
    let n = a.ratio.width as nat;
    let d = a.ratio.height as nat;
    let s = a.scale as nat;
    let m = b.ratio.width as nat;
    let e = b.ratio.height as nat;
    let t = b.scale as nat;
    assert(n > 0 && d > 0 && s > 0 && m > 0 && e > 0 && t > 0) by (nonlinear_arith)
        requires
            n * s > 0,
            d * s > 0,
            m * t > 0,
            e * t > 0,
    ;
    assert((n * e) * (s * t) == (d * m) * (s * t)) by (nonlinear_arith)
        requires
            n * s == m * t,
            d * s == e * t,
    ;
    assert(n * e == d * m) by (nonlinear_arith)
        requires
            (n * e) * (s * t) == (d * m) * (s * t),
            s > 0,
            t > 0,
    ;
    let k = lemma_multiple_of_lowest_terms(n, d, m, e);
    assert(k == 1) by {
        if k > 1 {
            lemma_mod_multiples_basic(n as int, k as int);
            lemma_mod_multiples_basic(d as int, k as int);
            assert(divides(k, m) && divides(k, e));
        }
        assert(k != 0) by (nonlinear_arith)
            requires
                m == n * k,
                m > 0,
        ;
    }
    assert(m == n && e == d) by (nonlinear_arith)
        requires
            m == n * k,
            e == d * k,
            k == 1,
    ;
    assert(s == t) by (nonlinear_arith)
        requires
            n * s == m * t,
            m == n,
            n > 0,
    ;
}

} // verus!
