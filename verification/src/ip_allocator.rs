//! Addresses for services, from a range of IPv4 addresses.
use std::collections::HashSet;
use vstd::prelude::*;
use vstd::string::StringExecFns;
use crate::text::{
    bounded_digits, chars_of, decimal, digits_value, find_char, is_digit, lemma_decimal,
    lemma_split_first, lemma_split_one, lemma_split_whole, opt_text, parse_unsigned, push_decimal,
    split, split_at_char,
};

verus! {

broadcast use vstd::std_specs::hash::group_hash_axioms;

/// An address from its four parts.
pub open spec fn from_octets(a: nat, b: nat, c: nat, d: nat) -> nat {
    ((a * 256 + b) * 256 + c) * 256 + d
}

/// A part of an address: one to three digits without a leading zero, up to 255.
pub open spec fn octet(s: Seq<char>) -> Option<nat> {
    if s.len() <= 3 && (s.len() == 1 || (s.len() > 1 && s[0] != '0')) {
        bounded_digits(s, 255)
    } else {
        None
    }
}

/// The address that a text writes: four parts between dots.
pub open spec fn ipv4_value(s: Seq<char>) -> Option<nat> {
    let parts = split_at_char(s, '.');
    if parts.len() == 4 && octet(parts[0]) is Some && octet(parts[1]) is Some && octet(parts[2]) is Some
        && octet(parts[3]) is Some {
        Some(
            from_octets(
                octet(parts[0])->0,
                octet(parts[1])->0,
                octet(parts[2])->0,
                octet(parts[3])->0,
            ),
        )
    } else {
        None
    }
}

/// The text of four parts between dots.
pub open spec fn dotted_quad(a: nat, b: nat, c: nat, d: nat) -> Seq<char> {
    decimal(a) + "."@ + decimal(b) + "."@ + decimal(c) + "."@ + decimal(d)
}

/// The text of an address.
pub open spec fn ipv4_text(n: nat) -> Seq<char> {
    dotted_quad(n / 0x100_0000, n / 0x1_0000 % 256, n / 0x100 % 256, n % 256)
}

fn parse_octet(s: &str) -> (r: Option<u32>)
    ensures
        match r {
            Some(n) => octet(s@) == Some(n as nat) && n <= 255,
            None => octet(s@) is None,
        },
{
    let v: Vec<char> = chars_of(s);
    if v.len() == 0 || v.len() > 3 || (v.len() > 1 && v[0] == '0') {
        return None;
    }
    if v[0] == '+' {
        assert(!is_digit(s@[0]));
        return None;
    }
    match parse_unsigned(s, 255) {
        Some(n) => Some(n as u32),
        None => None,
    }
}

/// Reads an address.
pub fn parse_ipv4(s: &str) -> (r: Option<u32>)
    ensures
        match r {
            Some(n) => ipv4_value(s@) == Some(n as nat),
            None => ipv4_value(s@) is None,
        },
{
    let parts: Vec<String> = split(s, '.');
    let ghost all = split_at_char(s@, '.');
    if parts.len() != 4 {
        assert(all.len() == parts@.len());
        return None;
    }
    assert(all[0] == parts@[0]@ && all[1] == parts@[1]@ && all[2] == parts@[2]@ && all[3]
        == parts@[3]@);
    match (
        parse_octet(parts[0].as_str()),
        parse_octet(parts[1].as_str()),
        parse_octet(parts[2].as_str()),
        parse_octet(parts[3].as_str()),
    ) {
        (Some(a), Some(b), Some(c), Some(d)) => Some(((a * 256 + b) * 256 + c) * 256 + d),
        _ => None,
    }
}

/// Writes an address.
pub fn format_ipv4(n: u32) -> (s: String)
    ensures
        s@ == ipv4_text(n as nat),
{
    let mut out: String = String::new();
    push_decimal(&mut out, (n / 0x100_0000) as u64);
    assert(Seq::<char>::empty() + decimal((n / 0x100_0000) as nat) =~= decimal(
        (n / 0x100_0000) as nat,
    ));
    out.append(".");
    push_decimal(&mut out, (n / 0x1_0000 % 256) as u64);
    out.append(".");
    push_decimal(&mut out, (n / 0x100 % 256) as u64);
    out.append(".");
    push_decimal(&mut out, (n % 256) as u64);
    out
}

/// Two to the power of `n`.
pub open spec fn power_of_two(n: nat) -> nat
    decreases n,
{
    if n == 0 {
        1
    } else {
        2 * power_of_two((n - 1) as nat)
    }
}

proof fn lemma_power_grows(j: nat, k: nat)
    requires
        j <= k,
    ensures
        power_of_two(j) <= power_of_two(k),
    decreases k,
{
    if j < k {
        lemma_power_grows(j, (k - 1) as nat);
    }
}

/// Gives out addresses of a range, each once until it is released.
pub struct ClusterIPAllocator {
    base: u32,
    pool_size: u32,
    allocated: HashSet<u32>,
}

/// The first offset from `i` on whose address is free.
pub open spec fn free_from(base: int, pool_size: int, taken: Set<u32>, i: int) -> Option<int>
    decreases pool_size - i,
{
    if i >= pool_size {
        None
    } else if !taken.contains((base + i) as u32) {
        Some(i)
    } else {
        free_from(base, pool_size, taken, i + 1)
    }
}

/// The address that is given out next: the lowest free one after the first of
/// the range.
pub open spec fn next_address(base: u32, size: u32, taken: Set<u32>) -> Option<u32> {
    match free_from(base as int, size as int, taken, 1) {
        Some(i) => Some((base + i) as u32),
        None => None,
    }
}

/// Whether an address that is asked for is given out: it is one, is in the
/// range, and is free.
pub open spec fn is_given(base: u32, size: u32, taken: Set<u32>, ip: Seq<char>) -> bool {
    ipv4_value(ip) matches Some(n) && base <= n < base + size && !taken.contains(n as u32)
}

/// The addresses that are given out once `ip` was asked for.
pub open spec fn taken_after_request(base: u32, size: u32, taken: Set<u32>, ip: Seq<char>) -> Set<
    u32,
> {
    if is_given(base, size, taken, ip) {
        taken.insert(ipv4_value(ip)->0 as u32)
    } else {
        taken
    }
}

/// The addresses that are given out once `ip` was taken back.
pub open spec fn taken_after_release(taken: Set<u32>, ip: Seq<char>) -> Set<u32> {
    match ipv4_value(ip) {
        Some(n) => taken.remove(n as u32),
        None => taken,
    }
}

/// The addresses that are given out once `ip` was found to be in use.
pub open spec fn taken_after_mark(base: u32, size: u32, taken: Set<u32>, ip: Seq<char>) -> Set<u32> {
    match ipv4_value(ip) {
        Some(n) => if base <= n < base + size {
            taken.insert(n as u32)
        } else {
            taken
        },
        None => taken,
    }
}

impl ClusterIPAllocator {
    /// The first address of the range.
    pub closed spec fn base(self) -> u32 {
        self.base
    }

    /// How many addresses the range has.
    pub closed spec fn size(self) -> u32 {
        self.pool_size
    }

    /// The addresses that are given out.
    pub closed spec fn taken(self) -> Set<u32> {
        self.allocated@
    }

    /// Whether the range ends where the addresses end, at the latest.
    pub open spec fn fits(self) -> bool {
        self.base() + self.size() <= 0x1_0000_0000
    }

    /// Whether the search for a free address ends before it passes the last
    /// address there is.
    pub open spec fn search_stays(self) -> bool {
        self.fits() || (free_from(self.base() as int, self.size() as int, self.taken(), 1) matches Some(
            i,
        ) && self.base() + i < 0x1_0000_0000)
    }

    /// Whether the range holds an address.
    pub open spec fn covers(self, n: nat) -> bool {
        self.base() <= n < self.base() + self.size()
    }

    /// An allocator for the range 10.96.0.0/12.
    pub fn new() -> (a: ClusterIPAllocator)
        ensures
            a.base() == 0x0a60_0000,
            a.size() == 0x10_0000,
            a.taken() == Set::<u32>::empty(),
            a.fits(),
    {
        let a = ClusterIPAllocator {
            base: 0x0a60_0000,
            pool_size: 0x10_0000,
            allocated: HashSet::new(),
        };
        a
    }

    /// An allocator for a range. A base that is no address stands for 10.96.0.0.
    pub fn with_cidr(base_ip: String, prefix_len: u8) -> (a: ClusterIPAllocator)
        requires
            1 <= prefix_len <= 32,
        ensures
            a.base() == (match ipv4_value(base_ip@) {
                Some(n) => n,
                None => 0x0a60_0000,
            }),
            a.size() == power_of_two((32 - prefix_len) as nat),
            a.taken() == Set::<u32>::empty(),
    {
        let base: u32 = match parse_ipv4(base_ip.as_str()) {
            Some(n) => n,
            None => 0x0a60_0000,
        };
        let mut pool_size: u32 = 1;
        let mut i: u8 = 0;
        let bits: u8 = 32 - prefix_len;
        while i < bits
            invariant
                i <= bits <= 31,
                pool_size == power_of_two(i as nat),
            decreases bits - i,
        {
            proof {
                lemma_power_grows((i + 1) as nat, 31);
                reveal_with_fuel(power_of_two, 32);
                assert(power_of_two(31) == 0x8000_0000);
            }
            pool_size = pool_size * 2;
            i = i + 1;
        }
        ClusterIPAllocator { base, pool_size, allocated: HashSet::new() }
    }

    /// Gives out the lowest free address. The first one of the range, which
    /// names the network, is never given out.
    pub fn allocate(&mut self) -> (r: Option<String>)
        requires
            old(self).search_stays(),
        ensures
            final(self).base() == old(self).base(),
            final(self).size() == old(self).size(),
            match free_from(
                old(self).base() as int,
                old(self).size() as int,
                old(self).taken(),
                1,
            ) {
                Some(i) => {
                    let n = (old(self).base() + i) as u32;
                    opt_text(r) == Some(ipv4_text(n as nat)) && final(self).taken() == old(
                        self,
                    ).taken().insert(n)
                },
                None => r is None && final(self).taken() == old(self).taken(),
            },
            match next_address(old(self).base(), old(self).size(), old(self).taken()) {
                Some(n) => opt_text(r) == Some(ipv4_text(n as nat)) && final(self).taken() == old(
                    self,
                ).taken().insert(n),
                None => r is None && final(self).taken() == old(self).taken(),
            },
    {
        let mut i: u32 = 1;
        while i < self.pool_size
            invariant
                *self == *old(self),
                self.search_stays(),
                1 <= i,
                free_from(self.base as int, self.pool_size as int, self.allocated@, 1) == free_from(
                    self.base as int,
                    self.pool_size as int,
                    self.allocated@,
                    i as int,
                ),
            decreases self.pool_size - i,
        {
            proof {
                law_given_address_was_free(
                    self.base as int,
                    self.pool_size as int,
                    self.allocated@,
                    i as int,
                );
            }
            let ip: u32 = self.base + i;
            if !self.allocated.contains(&ip) {
                let _ = self.allocated.insert(ip);
                return Some(format_ipv4(ip));
            }
            i = i + 1;
        }
        None
    }

    /// Whether the range holds the address that `ip` writes.
    pub fn is_in_range(&self, ip: &str) -> (r: bool)
        ensures
            r == (ipv4_value(ip@) is Some && self.covers(ipv4_value(ip@)->0)),
    {
        match parse_ipv4(ip) {
            Some(n) => n >= self.base && (n as u64) < self.base as u64 + self.pool_size as u64,
            None => false,
        }
    }

    /// Gives out a given address, if it is in the range and free.
    pub fn allocate_specific(&mut self, ip: String) -> (r: bool)
        ensures
            final(self).base() == old(self).base(),
            final(self).size() == old(self).size(),
            r == (ipv4_value(ip@) matches Some(n) && old(self).covers(n) && !old(
                self,
            ).taken().contains(n as u32)),
            final(self).taken() == if r {
                old(self).taken().insert(ipv4_value(ip@)->0 as u32)
            } else {
                old(self).taken()
            },
            r == is_given(old(self).base(), old(self).size(), old(self).taken(), ip@),
            final(self).taken() == taken_after_request(
                old(self).base(),
                old(self).size(),
                old(self).taken(),
                ip@,
            ),
    {
        match parse_ipv4(ip.as_str()) {
            Some(n) => {
                if self.allocated.contains(&n) {
                    return false;
                }
                if !self.is_in_range(ip.as_str()) {
                    return false;
                }
                let _ = self.allocated.insert(n);
                true
            },
            None => false,
        }
    }

    /// Takes an address back. What is no address, or is not given out, changes nothing.
    pub fn release(&mut self, ip: &str)
        ensures
            final(self).base() == old(self).base(),
            final(self).size() == old(self).size(),
            final(self).taken() == match ipv4_value(ip@) {
                Some(n) => old(self).taken().remove(n as u32),
                None => old(self).taken(),
            },
            final(self).taken() == taken_after_release(old(self).taken(), ip@),
    {
        if let Some(n) = parse_ipv4(ip) {
            let _ = self.allocated.remove(&n);
        }
    }

    /// Counts an address that is in use already as given out, if it is in the range.
    pub fn mark_allocated(&mut self, ip: String)
        ensures
            final(self).base() == old(self).base(),
            final(self).size() == old(self).size(),
            final(self).taken() == if ipv4_value(ip@) matches Some(n) && old(self).covers(n) {
                old(self).taken().insert(ipv4_value(ip@)->0 as u32)
            } else {
                old(self).taken()
            },
            final(self).taken() == taken_after_mark(
                old(self).base(),
                old(self).size(),
                old(self).taken(),
                ip@,
            ),
    {
        if self.is_in_range(ip.as_str()) {
            if let Some(n) = parse_ipv4(ip.as_str()) {
                let _ = self.allocated.insert(n);
            }
        }
    }

    /// How many addresses are given out, and how many the range has.
    pub fn stats(&self) -> (r: (usize, u32))
        ensures
            r.0 == self.taken().len(),
            r.1 == self.size(),
    {
        (self.allocated.len(), self.pool_size)
    }
}

impl Default for ClusterIPAllocator {
    fn default() -> (a: ClusterIPAllocator)
        ensures
            a.base() == 0x0a60_0000,
            a.size() == 0x10_0000,
            a.taken() == Set::<u32>::empty(),
    {
        ClusterIPAllocator::new()
    }
}

proof fn lemma_octet_text(v: nat)
    requires
        v <= 255,
    ensures
        octet(decimal(v)) == Some(v),
        forall|j: int| 0 <= j < decimal(v).len() ==> #[trigger] decimal(v)[j] != '.',
{
    lemma_decimal(v);
    reveal_with_fuel(decimal, 3);
    assert forall|j: int| 0 <= j < decimal(v).len() implies #[trigger] decimal(v)[j] != '.' by {
        assert(is_digit(decimal(v)[j]));
    }
}

/// The text of an address is read as that address.
pub proof fn law_ipv4_text_is_read_back(n: nat)
    requires
        n < 0x1_0000_0000,
    ensures
        ipv4_value(ipv4_text(n)) == Some(n),
{
    let a = n / 0x100_0000;
    let b = n / 0x1_0000 % 256;
    let c = n / 0x100 % 256;
    let d = n % 256;
    lemma_octet_text(a);
    lemma_octet_text(b);
    lemma_octet_text(c);
    lemma_octet_text(d);
    reveal_strlit(".");
    assert("."@ =~= seq!['.']);
    let last = decimal(d);
    let third = decimal(c) + seq!['.'] + last;
    let second = decimal(b) + seq!['.'] + third;
    assert(ipv4_text(n) =~= decimal(a) + seq!['.'] + second);
    lemma_split_one(last, '.');
    lemma_split_first(decimal(c), '.', last);
    lemma_split_first(decimal(b), '.', third);
    lemma_split_first(decimal(a), '.', second);
    let parts = split_at_char(ipv4_text(n), '.');
    assert(parts =~= seq![decimal(a), decimal(b), decimal(c), last]);
    assert(from_octets(a, b, c, d) == n) by (nonlinear_arith)
        requires
            a == n / 0x100_0000,
            b == n / 0x1_0000 % 256,
            c == n / 0x100 % 256,
            d == n % 256,
    {
        assert(n / 0x100 == n / 0x1_0000 * 256 + n / 0x100 % 256);
        assert(n / 0x1_0000 == n / 0x100_0000 * 256 + n / 0x1_0000 % 256);
        assert(n == n / 0x100 * 256 + n % 256);
    }
}

proof fn lemma_octet_is_decimal(s: Seq<char>)
    requires
        octet(s) is Some,
    ensures
        s == decimal(octet(s)->0),
        octet(s)->0 <= 255,
{
    let v = octet(s)->0;
    reveal_with_fuel(digits_value, 4);
    reveal_with_fuel(decimal, 4);
    assert(is_digit(s[0]));
    if s.len() == 1 {
        assert(s.drop_last().len() == 0);
        assert(s =~= decimal(v));
    } else if s.len() == 2 {
        assert(is_digit(s[1]));
        assert(s.drop_last().drop_last().len() == 0);
        assert(s.drop_last().last() == s[0]);
        let h = (s[0] as nat - '0' as nat) as nat;
        let l = (s[1] as nat - '0' as nat) as nat;
        assert(v == 10 * h + l);
        assert(h > 0);
        assert(s =~= decimal(v));
    } else {
        assert(is_digit(s[1]) && is_digit(s[2]));
        assert(s.drop_last().drop_last().drop_last().len() == 0);
        assert(s.drop_last().last() == s[1]);
        assert(s.drop_last().drop_last().last() == s[0]);
        let h = (s[0] as nat - '0' as nat) as nat;
        let m = (s[1] as nat - '0' as nat) as nat;
        let l = (s[2] as nat - '0' as nat) as nat;
        assert(v == 10 * (10 * h + m) + l);
        assert(h > 0);
        assert(v / 10 == 10 * h + m);
        assert(v / 10 / 10 == h);
        assert(s =~= decimal(v));
    }
}

proof fn lemma_four_parts(s: Seq<char>)
    requires
        split_at_char(s, '.').len() == 4,
    ensures
        ({
            let parts = split_at_char(s, '.');
            s == parts[0] + seq!['.'] + (parts[1] + seq!['.'] + (parts[2] + seq!['.'] + parts[3]))
        }),
{
    let parts = split_at_char(s, '.');
    lemma_split_whole(s, '.');
    let s1 = s.skip(find_char(s, '.')->0 + 1);
    assert(split_at_char(s1, '.') == parts.skip(1));
    lemma_split_whole(s1, '.');
    let s2 = s1.skip(find_char(s1, '.')->0 + 1);
    assert(split_at_char(s2, '.') =~= parts.skip(2));
    lemma_split_whole(s2, '.');
    let s3 = s2.skip(find_char(s2, '.')->0 + 1);
    assert(split_at_char(s3, '.') =~= parts.skip(3));
    lemma_split_whole(s3, '.');
    if find_char(s3, '.') is Some {
        lemma_split_whole(s3.skip(find_char(s3, '.')->0 + 1), '.');
        assert(split_at_char(s3, '.').skip(1).len() == 0);
    }
    assert(s3 == parts[3]);
}

proof fn lemma_octets_of(a: nat, b: nat, c: nat, d: nat)
    requires
        a <= 255,
        b <= 255,
        c <= 255,
        d <= 255,
    ensures
        from_octets(a, b, c, d) < 0x1_0000_0000,
        from_octets(a, b, c, d) / 0x100_0000 == a,
        from_octets(a, b, c, d) / 0x1_0000 % 256 == b,
        from_octets(a, b, c, d) / 0x100 % 256 == c,
        from_octets(a, b, c, d) % 256 == d,
{
    let n = from_octets(a, b, c, d);
    assert(n / 0x100 == (a * 256 + b) * 256 + c);
    assert(n / 0x1_0000 == a * 256 + b);
}

/// An address is written in one way only.
pub proof fn law_ipv4_text_is_canonical(s: Seq<char>)
    requires
        ipv4_value(s) is Some,
    ensures
        s == ipv4_text(ipv4_value(s)->0),
        ipv4_value(s)->0 < 0x1_0000_0000,
{
    let parts = split_at_char(s, '.');
    lemma_octet_is_decimal(parts[0]);
    lemma_octet_is_decimal(parts[1]);
    lemma_octet_is_decimal(parts[2]);
    lemma_octet_is_decimal(parts[3]);
    lemma_four_parts(s);
    let a = octet(parts[0])->0;
    let b = octet(parts[1])->0;
    let c = octet(parts[2])->0;
    let d = octet(parts[3])->0;
    lemma_octets_of(a, b, c, d);
    reveal_strlit(".");
    assert("."@ =~= seq!['.']);
    assert(s =~= dotted_quad(a, b, c, d));
}

/// What is given out was free, lies in the range and is not its first address.
pub proof fn law_given_address_was_free(base: int, size: int, taken: Set<u32>, from: int)
    requires
        1 <= from,
    ensures
        free_from(base, size, taken, from) matches Some(i) ==> from <= i < size && !taken.contains(
            (base + i) as u32,
        ) && forall|j: int| from <= j < i ==> #[trigger] taken.contains((base + j) as u32),
    decreases size - from,
{
    if from < size && taken.contains((base + from) as u32) {
        law_given_address_was_free(base, size, taken, from + 1);
    }
}

/// Nothing is given out if and only if every address of the range but the
/// first is taken.
pub proof fn law_exhausted_only_when_full(base: int, size: int, taken: Set<u32>, from: int)
    requires
        1 <= from,
    ensures
        free_from(base, size, taken, from) is None <==> forall|j: int|
            from <= j < size ==> #[trigger] taken.contains((base + j) as u32),
    decreases size - from,
{
    if from < size {
        law_exhausted_only_when_full(base, size, taken, from + 1);
        assert(taken.contains((base + from) as u32) || !taken.contains((base + from) as u32));
    }
}

/// A released address below all that are free is the next one to be given out.
pub proof fn law_released_address_is_reused(
    base: int,
    size: int,
    taken: Set<u32>,
    offset: int,
    from: int,
)
    requires
        0 <= base,
        base + offset < 0x1_0000_0000,
        1 <= from <= offset < size,
        forall|j: int| 1 <= j <= offset ==> #[trigger] taken.contains((base + j) as u32),
    ensures
        free_from(base, size, taken.remove((base + offset) as u32), from) == Some(offset),
    decreases offset - from,
{
    let left = taken.remove((base + offset) as u32);
    if from < offset {
        assert(taken.contains((base + from) as u32));
        assert((base + from) as u32 != (base + offset) as u32);
        law_released_address_is_reused(base, size, taken, offset, from + 1);
    }
}

/// Two addresses that are given out one after the other differ.
pub proof fn law_no_address_twice(base: int, size: int, taken: Set<u32>)
    requires
        free_from(base, size, taken, 1) is Some,
        free_from(
            base,
            size,
            taken.insert((base + free_from(base, size, taken, 1)->0) as u32),
            1,
        ) is Some,
    ensures
        (base + free_from(base, size, taken, 1)->0) as u32 != (base + free_from(
            base,
            size,
            taken.insert((base + free_from(base, size, taken, 1)->0) as u32),
            1,
        )->0) as u32,
{
    let first = free_from(base, size, taken, 1)->0;
    let more = taken.insert((base + first) as u32);
    law_given_address_was_free(base, size, more, 1);
}

} // verus!
