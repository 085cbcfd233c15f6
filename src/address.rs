//! Addresses, and the bit view of an address that the tree walk reads and
//! rewrites.
use vstd::prelude::*;

verus! {

/// An IPv4 or IPv6 address, most significant bit first.
#[derive(Clone, Copy, Debug, PartialEq, Eq, Structural)]
pub enum Address {
    V4(u32),
    V6(u128),
}

impl Address {
    pub open spec fn spec_is_ipv6(&self) -> bool {
        self is V6
    }

    /// Whether this is an IPv6 address.
    pub fn is_ipv6(&self) -> (r: bool)
        ensures
            r == self.spec_is_ipv6(),
    {
        match self {
            Address::V4(_) => false,
            Address::V6(_) => true,
        }
    }

    /// The number of bits of the address.
    pub open spec fn bit_len(&self) -> nat {
        match self {
            Address::V4(_) => 32,
            Address::V6(_) => 128,
        }
    }

    /// The bits of the address, most significant first.
    pub open spec fn bits(&self) -> Seq<bool> {
        match self {
            Address::V4(v) => bits_of(v as u128, 32),
            Address::V6(v) => bits_of(*v, 128),
        }
    }
}

/// The low `len` bits of `v`, most significant first.
pub open spec fn bits_of(v: u128, len: nat) -> Seq<bool> {
    Seq::new(len, |i: int| (v >> ((len - 1 - i) as u128)) & 1 == 1)
}

/// Bit `p` of `v`, counted from the least significant.
pub open spec fn bit_at(v: u128, p: u128) -> bool {
    (v >> p) & 1 == 1
}

/// The address as an integer and its number of bits.
#[derive(Clone, Copy, PartialEq, Eq, Debug, Structural)]
pub struct AddressBits(pub u128, pub u32);

impl View for AddressBits {
    type V = Seq<bool>;

    open spec fn view(&self) -> Seq<bool> {
        bits_of(self.0, self.1 as nat)
    }
}

/// The bits of `s` before `k`, then a 0 at `k`, then 1 up to the end.
pub open spec fn branch_below(s: Seq<bool>, k: int) -> Seq<bool> {
    Seq::new(s.len(), |j: int| if j < k { s[j] } else { j > k })
}

/// The last position at or before `i` that holds a 1.
pub open spec fn last_one(s: Seq<bool>, i: int) -> Option<int>
    decreases i + 1,
{
    if i < 0 {
        None
    } else if s[i] {
        Some(i)
    } else {
        last_one(s, i - 1)
    }
}

proof fn lemma_shift_bit(v: u128, p: u128)
    requires
        p < 128,
    ensures
        ((v & (1u128 << p)) != 0) == bit_at(v, p),
{
    assert(((v & (1u128 << p)) != 0) == ((v >> p) & 1 == 1)) by (bit_vector)
        requires
            p < 128,
    ;
}

proof fn lemma_branch_bit(v: u128, s: u128, p: u128)
    requires
        s < 128,
        p < 128,
    ensures
        bit_at(
            (if s == 127 {
                0
            } else {
                v & (0xffff_ffff_ffff_ffff_ffff_ffff_ffff_ffffu128 << vstd::prelude::add(s, 1u128))
            }) | !(0xffff_ffff_ffff_ffff_ffff_ffff_ffff_ffffu128 << s),
            p,
        ) == if p > s {
            bit_at(v, p)
        } else {
            p < s
        },
{
    if s == 127 {
        assert((((0u128 | !(0xffff_ffff_ffff_ffff_ffff_ffff_ffff_ffffu128 << s)) >> p) & 1 == 1)
            == (if p > s {
            (v >> p) & 1 == 1
        } else {
            p < s
        })) by (bit_vector)
            requires
                s == 127,
                p < 128,
        ;
    } else {
        assert(((((v & (0xffff_ffff_ffff_ffff_ffff_ffff_ffff_ffffu128 << vstd::prelude::add(
            s,
            1u128,
        ))) | !(0xffff_ffff_ffff_ffff_ffff_ffff_ffff_ffffu128 << s)) >> p) & 1 == 1) == (if p
            > s {
            (v >> p) & 1 == 1
        } else {
            p < s
        })) by (bit_vector)
            requires
                s < 127,
                p < 128,
        ;
    }
}

impl AddressBits {
    /// The bits of an address.
    pub fn from_address(address: &Address) -> (r: AddressBits)
        ensures
            r@ == address.bits(),
            r.1 as nat == address.bit_len(),
    {
        match address {
            Address::V4(v) => AddressBits(*v as u128, 32),
            Address::V6(v) => AddressBits(*v, 128),
        }
    }

    /// The mask of the bit at position `index`, counted from the most
    /// significant.
    pub fn bit(&self, index: u32) -> (r: u128)
        requires
            index < self.1 <= 128,
        ensures
            r == 1u128 << ((self.1 - index - 1) as u128),
    {
        1u128 << (self.1 - index - 1)
    }

    /// The bit at position `index`.
    pub fn position(&self, index: usize) -> (r: bool)
        requires
            index < self.1 <= 128,
        ensures
            r == self@[index as int],
    {
        let mask = self.bit(index as u32);
        proof {
            lemma_shift_bit(self.0, (self.1 - index - 1) as u128);
        }
        self.0 & mask != 0
    }

    /// Clears the bit at `index` and sets every bit after it.
    pub fn set_branch(&mut self, index: u32)
        requires
            index < old(self).1 <= 128,
        ensures
            final(self).1 == old(self).1,
            final(self)@ == branch_below(old(self)@, index as int),
    {
        let tail = !(u128::MAX << (self.1 - index - 1));
        let shift = self.1 - index;
        let kept = if shift >= 128 {
            0
        } else {
            self.0 & (u128::MAX << shift)
        };
        let ghost v = self.0;
        let ghost len = self.1;
        self.0 = kept | tail;
        proof {
            let s = (len - index - 1) as u128;
            assert forall|j: int| 0 <= j < len implies #[trigger] self@[j] == branch_below(
                bits_of(v, len as nat),
                index as int,
            )[j] by {
                lemma_branch_bit(v, s, (len - 1 - j) as u128);
            }
            assert(self@ =~= branch_below(bits_of(v, len as nat), index as int));
        }
    }

    /// The last position at or before `index` that holds a 1.
    pub fn find_previous_one(&self, index: u32) -> (r: Option<u32>)
        requires
            index < self.1 <= 128,
        ensures
            r matches Some(k) ==> last_one(self@, index as int) == Some(k as int),
            r is None ==> last_one(self@, index as int) is None,
    {
        let mut i: u32 = index + 1;
        while i > 0
            invariant
                i <= index + 1,
                index < self.1 <= 128,
                last_one(self@, index as int) == last_one(self@, i - 1),
            decreases i,
        {
            if self.position((i - 1) as usize) {
                return Some(i - 1);
            }
            i = i - 1;
        }
        None
    }

    /// Backs up from `index` to the last 1 at or before it, turns it into a
    /// 0 and every later bit into a 1; returns where that 1 was.
    pub fn try_backtrack(&mut self, index: usize) -> (r: Option<usize>)
        requires
            index < old(self).1 <= 128,
        ensures
            final(self).1 == old(self).1,
            r matches Some(k) ==> last_one(old(self)@, index as int) == Some(k as int)
                && final(self)@ == branch_below(old(self)@, k as int),
            r is None ==> last_one(old(self)@, index as int) is None && *final(self) == *old(self),
    {
        let k = match self.find_previous_one(index as u32) {
            Some(k) => k,
            None => return None,
        };
        proof {
            lemma_last_one_bound(self@, index as int);
        }
        self.set_branch(k);
        Some(k as usize)
    }
}

/// The last 1 at or before `i` is a 1, and lies at or before `i`.
pub(crate) proof fn lemma_last_one_bound(s: Seq<bool>, i: int)
    ensures
        last_one(s, i) matches Some(k) ==> 0 <= k <= i && s[k],
    decreases i + 1,
{
    if i >= 0 && !s[i] {
        lemma_last_one_bound(s, i - 1);
    }
}

} // verus!
