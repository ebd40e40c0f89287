//! What can be counted on of the addresses that are given out.
use vstd::prelude::*;
use crate::ip_allocator::{
    format_ipv4, free_from, ipv4_text, ipv4_value, is_given, law_exhausted_only_when_full,
    law_given_address_was_free, law_ipv4_text_is_read_back, next_address, parse_ipv4, power_of_two,
    taken_after_mark, taken_after_release, taken_after_request, ClusterIPAllocator,
};
use crate::text::decimal;

verus! {

/// An address is written as its four bytes in decimal with dots between, the
/// highest first, and is read back from that.
pub proof fn law_addresses_are_four_bytes(a: nat, b: nat, c: nat, d: nat)
    requires
        a < 256,
        b < 256,
        c < 256,
        d < 256,
    ensures
        ipv4_text(a * 0x100_0000 + b * 0x1_0000 + c * 0x100 + d) == decimal(a) + "."@ + decimal(b)
            + "."@ + decimal(c) + "."@ + decimal(d),
        ipv4_value(
            decimal(a) + "."@ + decimal(b) + "."@ + decimal(c) + "."@ + decimal(d),
        ) == Some((a * 0x100_0000 + b * 0x1_0000 + c * 0x100 + d) as nat),
{
    let n: nat = (a * 0x100_0000 + b * 0x1_0000 + c * 0x100 + d) as nat;
    assert(n / 0x100_0000 == a);
    assert(n / 0x1_0000 == a * 256 + b);
    assert((a * 256 + b) % 256 == b);
    assert(n / 0x100 == (a * 256 + b) * 256 + c);
    assert(((a * 256 + b) * 256 + c) % 256 == c);
    assert(n % 256 == d);
    assert(n < 0x1_0000_0000);
    law_ipv4_text_is_read_back(n);
}

/// Reading and writing addresses as these functions do it undo each other.
pub proof fn law_addresses_are_read_and_written(n: u32, s: String, t: &str, r: Option<u32>)
    requires
        call_ensures(format_ipv4, (n,), s),
        t@ == s@,
        call_ensures(parse_ipv4, (t,), r),
    ensures
        r == Some(n),
{
    law_ipv4_text_is_read_back(n as nat);
}

/// A range has twice as many addresses as one whose prefix is a bit longer; one
/// with a prefix of 32 bits has one.
pub proof fn law_sizes_of_ranges(bits: nat)
    ensures
        power_of_two(0) == 1,
        power_of_two(bits + 1) == 2 * power_of_two(bits),
        power_of_two(20) == 0x10_0000,
{
    reveal_with_fuel(power_of_two, 21);
}

/// A range is read from its base and the length of its prefix; without another
/// it is 10.96.0.0/12, and at first every address is free.
pub proof fn law_ranges_are_as_they_are_written(
    base_ip: String,
    prefix_len: u8,
    a: ClusterIPAllocator,
    b: ClusterIPAllocator,
    n: u32,
)
    requires
        1 <= prefix_len <= 32,
        call_ensures(ClusterIPAllocator::with_cidr, (base_ip, prefix_len), a),
        call_ensures(ClusterIPAllocator::new, (), b),
    ensures
        base_ip@ == ipv4_text(n as nat) ==> a.base() == n,
        ipv4_value(base_ip@) is None ==> a.base() == 0x0a60_0000,
        a.size() == power_of_two((32 - prefix_len) as nat),
        !a.taken().contains(n),
        b.base() == 10 * 0x100_0000 + 96 * 0x1_0000,
        b.size() == power_of_two(20),
        !b.taken().contains(n),
{
    law_ipv4_text_is_read_back(n as nat);
    law_sizes_of_ranges(0);
}

/// The address that is given out next is free and lies in the range behind its
/// first; all between are taken, and there is none if and only if all are.
pub proof fn law_lowest_free_address_is_next(base: u32, size: u32, taken: Set<u32>)
    requires
        base + size <= 0x1_0000_0000,
    ensures
        match next_address(base, size, taken) {
            Some(n) => {
                &&& base < n < base + size
                &&& !taken.contains(n)
                &&& forall|m: u32| base < m < n ==> #[trigger] taken.contains(m)
            },
            None => forall|m: u32| base < m < base + size ==> #[trigger] taken.contains(m),
        },
{
    law_given_address_was_free(base as int, size as int, taken, 1);
    law_exhausted_only_when_full(base as int, size as int, taken, 1);
    match free_from(base as int, size as int, taken, 1) {
        Some(i) => {
            assert forall|m: u32| base < m < base + i implies #[trigger] taken.contains(m) by {
                let j = m - base;
                assert(taken.contains((base + j) as u32));
            }
        },
        None => {
            assert forall|m: u32| base < m < base + size implies #[trigger] taken.contains(m) by {
                let j = m - base;
                assert(taken.contains((base + j) as u32));
            }
        },
    }
}

/// An address that is asked for is given out if and only if it is in the range
/// and free; then it is taken, is not given out again, and no other address is
/// touched.
pub proof fn law_requested_addresses(base: u32, size: u32, taken: Set<u32>, n: u32, other: u32)
    requires
        other != n,
    ensures
        ({
            let ip = ipv4_text(n as nat);
            let after = taken_after_request(base, size, taken, ip);
            let given = is_given(base, size, taken, ip);
            &&& given <==> base <= n < base + size && !taken.contains(n)
            &&& given ==> after.contains(n) && !is_given(base, size, after, ip)
            &&& !given ==> after == taken
            &&& after.contains(other) <==> taken.contains(other)
        }),
        forall|s: Seq<char>|
            ipv4_value(s) is None ==> !#[trigger] is_given(base, size, taken, s)
                && taken_after_request(base, size, taken, s) == taken,
{
    law_ipv4_text_is_read_back(n as nat);
}

/// An address that is taken back is free, can be given out again where it is in
/// the range, and no other address is touched.
pub proof fn law_released_addresses(base: u32, size: u32, taken: Set<u32>, n: u32, other: u32)
    requires
        other != n,
    ensures
        ({
            let ip = ipv4_text(n as nat);
            let after = taken_after_release(taken, ip);
            &&& !after.contains(n)
            &&& base <= n < base + size ==> is_given(base, size, after, ip)
            &&& after.contains(other) <==> taken.contains(other)
        }),
        forall|s: Seq<char>|
            ipv4_value(s) is None ==> #[trigger] taken_after_release(taken, s) == taken,
{
    law_ipv4_text_is_read_back(n as nat);
}

/// An address of the range that is in use is not given out, and no other
/// address is touched; one outside is passed over.
pub proof fn law_marked_addresses(base: u32, size: u32, taken: Set<u32>, n: u32, other: u32)
    requires
        other != n,
    ensures
        ({
            let ip = ipv4_text(n as nat);
            let after = taken_after_mark(base, size, taken, ip);
            &&& base <= n < base + size ==> after.contains(n) && !is_given(base, size, after, ip)
            &&& !(base <= n < base + size) ==> after == taken
            &&& after.contains(other) <==> taken.contains(other)
        }),
        forall|s: Seq<char>|
            ipv4_value(s) is None ==> #[trigger] taken_after_mark(base, size, taken, s) == taken,
{
    law_ipv4_text_is_read_back(n as nat);
}

/// The range holds an address if and only if it lies in it, and the counts are
/// of the addresses given out and of all.
pub proof fn law_range_holds_its_addresses(
    a: ClusterIPAllocator,
    ip: &str,
    n: u32,
    r: bool,
    stats: (usize, u32),
)
    requires
        call_ensures(ClusterIPAllocator::is_in_range, (&a, ip), r),
        call_ensures(ClusterIPAllocator::stats, (&a,), stats),
        ip@ == ipv4_text(n as nat),
    ensures
        r <==> a.base() <= n < a.base() + a.size(),
        stats.0 == a.taken().len(),
        stats.1 == a.size(),
{
    law_ipv4_text_is_read_back(n as nat);
}

} // verus!
