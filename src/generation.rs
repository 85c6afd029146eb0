use vstd::prelude::*;

verus! {

/// The generation of a KV item, carried in the `generation` response header
/// as a decimal number.
pub struct Generation(pub u16);

pub open spec fn is_digit(b: u8) -> bool {
    48 <= b <= 57
}

pub open spec fn all_digits(s: Seq<u8>) -> bool {
    forall|i: int| 0 <= i < s.len() ==> is_digit(#[trigger] s[i])
}

/// The number that the decimal digits `s` write.
pub open spec fn decimal_value(s: Seq<u8>) -> nat
    decreases s.len(),
{
    if s.len() == 0 {
        0
    } else {
        decimal_value(s.drop_last()) * 10 + (s.last() - 48) as nat
    }
}

/// The digits of a header value once an optional leading `+` is taken off.
pub open spec fn unsigned_digits(s: Seq<u8>) -> Seq<u8> {
    if s.len() > 0 && s[0] == 43 {
        s.drop_first()
    } else {
        s
    }
}

/// The generation a header value reads as: an optional `+` and one or more
/// decimal digits whose number fits in 16 bits.
pub open spec fn parsed_generation(s: Seq<u8>) -> Option<u16> {
    let d = unsigned_digits(s);
    if d.len() > 0 && all_digits(d) && decimal_value(d) <= u16::MAX {
        Some(decimal_value(d) as u16)
    } else {
        None
    }
}

/// The decimal digits of `n`, without leading zeros.
pub open spec fn decimal_digits(n: nat) -> Seq<u8>
    decreases n,
{
    if n < 10 {
        seq![(48 + n) as u8]
    } else {
        decimal_digits(n / 10).push((48 + n % 10) as u8)
    }
}

proof fn lemma_prefix_value_le(s: Seq<u8>, i: int)
    requires
        0 <= i <= s.len(),
    ensures
        decimal_value(s.take(i)) <= decimal_value(s),
    decreases s.len(),
{
    if i < s.len() {
        let p = s.drop_last();
        assert(p.take(i) =~= s.take(i));
        lemma_prefix_value_le(p, i);
        let x = decimal_value(p);
        let d = (s.last() - 48) as nat;
        assert(x <= x * 10 + d) by (nonlinear_arith);
    } else {
        assert(s.take(i) =~= s);
    }
}

proof fn lemma_digits_value(n: nat)
    ensures
        decimal_digits(n).len() > 0,
        all_digits(decimal_digits(n)),
        decimal_value(decimal_digits(n)) == n,
        decimal_digits(n)[0] != 43,
    decreases n,
{
    if n < 10 {
        let d = decimal_digits(n);
        assert(d.drop_last() =~= Seq::<u8>::empty());
        assert(decimal_value(Seq::<u8>::empty()) == 0);
    } else {
        lemma_digits_value(n / 10);
        let d = decimal_digits(n);
        assert(d.drop_last() =~= decimal_digits(n / 10));
        assert(d[0] == decimal_digits(n / 10)[0]);
        assert(d.last() == (48 + n % 10) as u8);
        assert((n / 10) * 10 + n % 10 == n) by (nonlinear_arith);
    }
}

/// A generation written into a header reads back as itself.
pub proof fn lemma_generation_round_trip(g: u16)
    ensures
        parsed_generation(decimal_digits(g as nat)) == Some(g),
{
    lemma_digits_value(g as nat);
}

fn digits_of(n: u16) -> (r: Vec<u8>)
    ensures
        r@ == decimal_digits(n as nat),
    decreases n,
{
    if n < 10 {
        let r = vec![48 + n as u8];
        assert(r@ =~= decimal_digits(n as nat));
        r
    } else {
        let mut r = digits_of(n / 10);
        r.push(48 + (n % 10) as u8);
        r
    }
}

impl Generation {
    /// The name of the header that carries a generation.
    pub fn name() -> (r: &'static str)
        ensures
            r@ == "generation"@,
    {
        "generation"
    }

    /// The header value that carries this generation.
    pub fn encode(&self) -> (r: Vec<u8>)
        ensures
            r@ == decimal_digits(self.0 as nat),
    {
        digits_of(self.0)
    }

    /// Reads a generation from a header value; None where the value is not
    /// a 16-bit unsigned decimal number.
    pub fn decode(value: &[u8]) -> (r: Option<Generation>)
        ensures
            r.is_some() == parsed_generation(value@).is_some(),
            r.is_some() ==> Some(r.unwrap().0) == parsed_generation(value@),
    {
        let ghost d = unsigned_digits(value@);
        let start: usize = if value.len() > 0 && value[0] == 43 { 1 } else { 0 };
        assert(d =~= value@.subrange(start as int, value@.len() as int));
        if start >= value.len() {
            return None;
        }
        let mut acc: u32 = 0;
        let mut i: usize = start;
        while i < value.len()
            invariant
                start <= i <= value@.len(),
                d =~= value@.subrange(start as int, value@.len() as int),
                d == unsigned_digits(value@),
                acc as nat == decimal_value(d.take(i - start)),
                all_digits(d.take(i - start)),
                acc <= u16::MAX,
            decreases value@.len() - i,
        {
            let b = value[i];
            let ghost p = d.take(i - start);
            let ghost q = d.take(i - start + 1);
            assert(d[i - start] == b);
            assert(q.drop_last() =~= p);
            assert(q.last() == b);
            if b < 48 || b > 57 {
                assert(!is_digit(d[i - start]));
                assert(parsed_generation(value@) is None);
                return None;
            }
            let next: u32 = acc * 10 + (b - 48) as u32;
            assert(next as nat == decimal_value(q));
            i = i + 1;
            assert(all_digits(d.take(i - start)));
            if next > 65535 {
                proof {
                    lemma_prefix_value_le(d, i - start);
                    assert(parsed_generation(value@) is None);
                }
                return None;
            }
            acc = next;
        }
        assert(d.take(i - start) =~= d);
        Some(Generation(acc as u16))
    }
}

} // verus!
