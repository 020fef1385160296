//! What holds of texts, of addresses and of points in time.

use vstd::prelude::*;

use crate::net::{
    ipv4_text, ipv6_text, is_v4_mapped, longest_zero_run, range_text, ranges_text, segment,
    segments_text, v4_octet, zero_run, IpRange, Ipv4Addr, Ipv4Range, Ipv6Addr, Ipv6Range,
    SocketAddr, SocketAddrV4, SocketAddrV6,
};
use crate::text::{
    decimal, hex_digit, hexadecimal, is_random_uuid, join, text_before, uuid_hyphen,
    uuid_hyphens_before, uuid_nibble, uuid_text, Uuid,
};
use crate::time::{is_earlier_by, rfc3339_millis, Duration, Timestamp};

verus! {

// ---
// Numbers
// ---

/// The value of a decimal or lower-case hexadecimal digit.
pub open spec fn digit_value(c: char) -> int {
    if '0' <= c <= '9' {
        c as int - '0' as int
    } else {
        c as int - 'a' as int + 10
    }
}

/// The number that digits spell.
pub open spec fn number_of(digits: Seq<char>, base: int) -> int
    decreases digits.len(),
{
    if digits.len() == 0 {
        0
    } else {
        number_of(digits.drop_last(), base) * base + digit_value(digits.last())
    }
}

proof fn lemma_digit(n: int)
    requires
        0 <= n < 16,
    ensures
        digit_value(hex_digit(n)) == n,
        n < 10 ==> '0' <= hex_digit(n) <= '9',
        n >= 10 ==> 'a' <= hex_digit(n) <= 'f',
        hex_digit(n) == '0' <==> n == 0,
{
}

/// A number in decimal is read back as that number. It is made of the digits from 0
/// to 9, and starts with 0 only where it is zero.
pub proof fn law_decimal_is_read_back(n: nat)
    ensures
        number_of(decimal(n), 10) == n,
        decimal(n).len() > 0,
        forall|i: int| 0 <= i < decimal(n).len() ==> '0' <= #[trigger] decimal(n)[i] <= '9',
        decimal(n)[0] == '0' <==> n == 0,
        decimal(n)[0] == '0' ==> decimal(n).len() == 1,
    decreases n,
{
    reveal_with_fuel(number_of, 2);
    if n < 10 {
        lemma_digit(n as int);
        assert(decimal(n).drop_last() =~= Seq::empty());
    } else {
        law_decimal_is_read_back(n / 10);
        lemma_digit((n % 10) as int);
        assert(decimal(n).drop_last() =~= decimal(n / 10));
        assert(decimal(n)[0] == decimal(n / 10)[0]);
    }
}

/// A number in hexadecimal is read back as that number. It is made of the digits from
/// 0 to f, and starts with 0 only where it is zero.
pub proof fn law_hexadecimal_is_read_back(n: nat)
    ensures
        number_of(hexadecimal(n), 16) == n,
        hexadecimal(n).len() > 0,
        forall|i: int|
            0 <= i < hexadecimal(n).len() ==> '0' <= #[trigger] hexadecimal(n)[i] <= '9' || 'a'
                <= hexadecimal(n)[i] <= 'f',
        hexadecimal(n)[0] == '0' <==> n == 0,
        hexadecimal(n)[0] == '0' ==> hexadecimal(n).len() == 1,
    decreases n,
{
    reveal_with_fuel(number_of, 2);
    if n < 16 {
        lemma_digit(n as int);
        assert(hexadecimal(n).drop_last() =~= Seq::empty());
    } else {
        law_hexadecimal_is_read_back(n / 16);
        lemma_digit((n % 16) as int);
        assert(hexadecimal(n).drop_last() =~= hexadecimal(n / 16));
        assert(hexadecimal(n)[0] == hexadecimal(n / 16)[0]);
    }
}

/// Different numbers have different texts.
pub proof fn law_numbers_differ_in_text(a: nat, b: nat)
    ensures
        decimal(a) == decimal(b) ==> a == b,
        hexadecimal(a) == hexadecimal(b) ==> a == b,
{
    law_decimal_is_read_back(a);
    law_decimal_is_read_back(b);
    law_hexadecimal_is_read_back(a);
    law_hexadecimal_is_read_back(b);
}

// ---
// Ids
// ---

/// The text of an id has 36 characters: hyphens after the first 8 digits and after
/// each 4 of the next 12, and otherwise lower-case hexadecimal digits.
pub proof fn law_shape_of_an_id(id: Uuid, i: int)
    ensures
        uuid_text(id).len() == 36,
        i == 8 || i == 13 || i == 18 || i == 23 ==> uuid_text(id)[i] == '-',
        0 <= i < 36 && i != 8 && i != 13 && i != 18 && i != 23 ==> '0' <= uuid_text(id)[i] <= '9'
            || 'a' <= uuid_text(id)[i] <= 'f',
{
    if 0 <= i < 36 && !uuid_hyphen(i) {
        let k = i - uuid_hyphens_before(i);
        let s = (31 - k) * 4;
        let shifted = id >> s;
        assert(shifted & 0xf <= 0xf) by (bit_vector);
        lemma_digit(uuid_nibble(id, k) as int);
    }
}

/// The digits of an id are those of its number, the most significant one first.
pub proof fn law_digits_of_an_id(id: Uuid)
    ensures
        digit_value(uuid_text(id)[0]) == id / 0x1000_0000_0000_0000_0000_0000_0000_0000,
        digit_value(uuid_text(id)[1]) == (id / 0x100_0000_0000_0000_0000_0000_0000_0000) % 16,
        digit_value(uuid_text(id)[34]) == (id / 16) % 16,
        digit_value(uuid_text(id)[35]) == id % 16,
{
    let top = (id >> 124u128) & 0xf;
    let next = (id >> 120u128) & 0xf;
    let low = (id >> 4u128) & 0xf;
    let last = (id >> 0u128) & 0xf;
    assert((id >> 124u128) & 0xf == id / 0x1000_0000_0000_0000_0000_0000_0000_0000)
        by (bit_vector);
    assert((id >> 120u128) & 0xf == (id / 0x100_0000_0000_0000_0000_0000_0000_0000) % 16)
        by (bit_vector);
    assert((id >> 4u128) & 0xf == (id / 16) % 16) by (bit_vector);
    assert((id >> 0u128) & 0xf == id % 16) by (bit_vector);
    assert((id >> 124u128) & 0xf <= 0xf) by (bit_vector);
    assert(uuid_nibble(id, 0) == top);
    assert(uuid_nibble(id, 1) == next);
    assert(uuid_nibble(id, 30) == low);
    assert(uuid_nibble(id, 31) == last);
    lemma_digit(top as int);
    lemma_digit(next as int);
    lemma_digit(low as int);
    lemma_digit(last as int);
}

/// The text of a random id has the version and the variant of one: the digit 4, and one
/// of the digits from 8 to b.
pub proof fn law_digits_of_a_random_id(id: Uuid)
    ensures
        is_random_uuid(id) <==> uuid_text(id)[14] == '4' && (uuid_text(id)[19] == '8'
            || uuid_text(id)[19] == '9' || uuid_text(id)[19] == 'a' || uuid_text(id)[19] == 'b'),
{
    let version = (id >> 76u128) & 0xf;
    let variant = (id >> 60u128) & 0xf;
    assert((id >> 76u128) & 0xf <= 0xf) by (bit_vector);
    assert((id >> 60u128) & 0xf <= 0xf) by (bit_vector);
    assert((id >> 62u128) & 3 == 2 <==> 8 <= (id >> 60u128) & 0xf && (id >> 60u128) & 0xf <= 11)
        by (bit_vector);
    assert(uuid_nibble(id, 12) == version);
    assert(uuid_nibble(id, 16) == variant);
    assert(uuid_text(id)[14] == hex_digit(version as int));
    assert(uuid_text(id)[19] == hex_digit(variant as int));
    lemma_digit(version as int);
    lemma_digit(variant as int);
}

proof fn lemma_same_digit(a: Uuid, b: Uuid, k: int)
    requires
        0 <= k < 32,
        uuid_text(a) == uuid_text(b),
    ensures
        uuid_nibble(a, k) == uuid_nibble(b, k),
{
    let i = if k < 8 {
        k
    } else if k < 12 {
        k + 1
    } else if k < 16 {
        k + 2
    } else if k < 20 {
        k + 3
    } else {
        k + 4
    };
    assert(!uuid_hyphen(i) && i - uuid_hyphens_before(i) == k);
    assert(uuid_text(a)[i] == hex_digit(uuid_nibble(a, k) as int));
    assert(uuid_text(b)[i] == hex_digit(uuid_nibble(b, k) as int));
    let s = (31 - k) * 4;
    let (x, y) = (a >> s, b >> s);
    assert(x & 0xf <= 0xf) by (bit_vector);
    assert(y & 0xf <= 0xf) by (bit_vector);
    lemma_digit(uuid_nibble(a, k) as int);
    lemma_digit(uuid_nibble(b, k) as int);
}

/// Different ids have different texts.
pub proof fn law_ids_differ_in_text(a: Uuid, b: Uuid)
    requires
        uuid_text(a) == uuid_text(b),
    ensures
        a == b,
{
    lemma_same_digit(a, b, 0);
    lemma_same_digit(a, b, 1);
    lemma_same_digit(a, b, 2);
    lemma_same_digit(a, b, 3);
    lemma_same_digit(a, b, 4);
    lemma_same_digit(a, b, 5);
    lemma_same_digit(a, b, 6);
    lemma_same_digit(a, b, 7);
    lemma_same_digit(a, b, 8);
    lemma_same_digit(a, b, 9);
    lemma_same_digit(a, b, 10);
    lemma_same_digit(a, b, 11);
    lemma_same_digit(a, b, 12);
    lemma_same_digit(a, b, 13);
    lemma_same_digit(a, b, 14);
    lemma_same_digit(a, b, 15);
    lemma_same_digit(a, b, 16);
    lemma_same_digit(a, b, 17);
    lemma_same_digit(a, b, 18);
    lemma_same_digit(a, b, 19);
    lemma_same_digit(a, b, 20);
    lemma_same_digit(a, b, 21);
    lemma_same_digit(a, b, 22);
    lemma_same_digit(a, b, 23);
    lemma_same_digit(a, b, 24);
    lemma_same_digit(a, b, 25);
    lemma_same_digit(a, b, 26);
    lemma_same_digit(a, b, 27);
    lemma_same_digit(a, b, 28);
    lemma_same_digit(a, b, 29);
    lemma_same_digit(a, b, 30);
    lemma_same_digit(a, b, 31);
    assert(a == b) by (bit_vector)
        requires
            (a >> 124u128) & 0xf == (b >> 124u128) & 0xf,
            (a >> 120u128) & 0xf == (b >> 120u128) & 0xf,
            (a >> 116u128) & 0xf == (b >> 116u128) & 0xf,
            (a >> 112u128) & 0xf == (b >> 112u128) & 0xf,
            (a >> 108u128) & 0xf == (b >> 108u128) & 0xf,
            (a >> 104u128) & 0xf == (b >> 104u128) & 0xf,
            (a >> 100u128) & 0xf == (b >> 100u128) & 0xf,
            (a >> 96u128) & 0xf == (b >> 96u128) & 0xf,
            (a >> 92u128) & 0xf == (b >> 92u128) & 0xf,
            (a >> 88u128) & 0xf == (b >> 88u128) & 0xf,
            (a >> 84u128) & 0xf == (b >> 84u128) & 0xf,
            (a >> 80u128) & 0xf == (b >> 80u128) & 0xf,
            (a >> 76u128) & 0xf == (b >> 76u128) & 0xf,
            (a >> 72u128) & 0xf == (b >> 72u128) & 0xf,
            (a >> 68u128) & 0xf == (b >> 68u128) & 0xf,
            (a >> 64u128) & 0xf == (b >> 64u128) & 0xf,
            (a >> 60u128) & 0xf == (b >> 60u128) & 0xf,
            (a >> 56u128) & 0xf == (b >> 56u128) & 0xf,
            (a >> 52u128) & 0xf == (b >> 52u128) & 0xf,
            (a >> 48u128) & 0xf == (b >> 48u128) & 0xf,
            (a >> 44u128) & 0xf == (b >> 44u128) & 0xf,
            (a >> 40u128) & 0xf == (b >> 40u128) & 0xf,
            (a >> 36u128) & 0xf == (b >> 36u128) & 0xf,
            (a >> 32u128) & 0xf == (b >> 32u128) & 0xf,
            (a >> 28u128) & 0xf == (b >> 28u128) & 0xf,
            (a >> 24u128) & 0xf == (b >> 24u128) & 0xf,
            (a >> 20u128) & 0xf == (b >> 20u128) & 0xf,
            (a >> 16u128) & 0xf == (b >> 16u128) & 0xf,
            (a >> 12u128) & 0xf == (b >> 12u128) & 0xf,
            (a >> 8u128) & 0xf == (b >> 8u128) & 0xf,
            (a >> 4u128) & 0xf == (b >> 4u128) & 0xf,
            (a >> 0u128) & 0xf == (b >> 0u128) & 0xf,
    ;
}

// ---
// Lists and order
// ---

/// Joined parts are the parts in their order, with the separator between each two.
pub proof fn law_joined_parts(parts: Seq<Seq<char>>, more: Seq<char>, separator: Seq<char>)
    ensures
        join(Seq::empty(), separator).len() == 0,
        join(seq![more], separator) == more,
        parts.len() > 0 ==> join(parts.push(more), separator) == join(parts, separator) + separator
            + more,
{
    assert(parts.push(more).drop_last() =~= parts);
}

/// One text comes before another just where they are the same up to some place, where
/// the first one ends or has the smaller character.
pub proof fn law_order_of_texts(a: Seq<char>, b: Seq<char>)
    ensures
        text_before(a, b) <==> exists|k: int|
            {
                &&& 0 <= k <= a.len()
                &&& k < b.len()
                &&& #[trigger] a.take(k) == b.take(k)
                &&& k == a.len() || a[k] < b[k]
            },
    decreases a.len(),
{
    if a.len() == 0 || b.len() == 0 {
        if b.len() > 0 {
            assert(a.take(0) =~= b.take(0));
        }
    } else {
        let (x, y) = (a.drop_first(), b.drop_first());
        law_order_of_texts(x, y);
        if a[0] == b[0] {
            if text_before(x, y) {
                let k = choose|k: int|
                    {
                        &&& 0 <= k <= x.len()
                        &&& k < y.len()
                        &&& #[trigger] x.take(k) == y.take(k)
                        &&& k == x.len() || x[k] < y[k]
                    };
                assert(a.take(k + 1) =~= b.take(k + 1)) by {
                    assert forall|i: int| 0 <= i < k + 1 implies a[i] == b[i] by {
                        if i > 0 {
                            assert(x.take(k)[i - 1] == y.take(k)[i - 1]);
                        }
                    }
                }
            }
            if exists|k: int|
                {
                    &&& 0 <= k <= a.len()
                    &&& k < b.len()
                    &&& #[trigger] a.take(k) == b.take(k)
                    &&& k == a.len() || a[k] < b[k]
                } {
                let k = choose|k: int|
                    {
                        &&& 0 <= k <= a.len()
                        &&& k < b.len()
                        &&& #[trigger] a.take(k) == b.take(k)
                        &&& k == a.len() || a[k] < b[k]
                    };
                assert(k > 0);
                assert(x.take(k - 1) =~= y.take(k - 1)) by {
                    assert forall|i: int| 0 <= i < k - 1 implies x[i] == y[i] by {
                        assert(a.take(k)[i + 1] == b.take(k)[i + 1]);
                    }
                }
            }
        } else {
            if a[0] < b[0] {
                assert(a.take(0) =~= b.take(0));
            }
            assert forall|k: int| 0 < k <= a.len() && k < b.len() implies #[trigger] a.take(k)
                != b.take(k) by {
                assert(a.take(k)[0] == a[0] && b.take(k)[0] == b[0]);
            }
        }
    }
}

// ---
// Addresses
// ---

/// The octets of an IPv4 address are those of its number, the most significant one
/// first.
pub proof fn law_octets_of_an_address(addr: Ipv4Addr)
    ensures
        v4_octet(addr, 0) == addr / 0x100_0000,
        v4_octet(addr, 1) == (addr / 0x1_0000) % 256,
        v4_octet(addr, 2) == (addr / 256) % 256,
        v4_octet(addr, 3) == addr % 256,
{
    assert((addr >> 24u32) & 0xff == addr / 0x100_0000) by (bit_vector);
    assert((addr >> 16u32) & 0xff == (addr / 0x1_0000) % 256) by (bit_vector);
    assert((addr >> 8u32) & 0xff == (addr / 256) % 256) by (bit_vector);
    assert((addr >> 0u32) & 0xff == addr % 256) by (bit_vector);
}

/// The text of an IPv4 address are its four octets in decimal, with dots between.
pub proof fn law_text_of_an_ipv4_address(addr: Ipv4Addr)
    ensures
        ipv4_text(addr) == decimal((addr / 0x100_0000) as nat) + "."@ + decimal(
            ((addr / 0x1_0000) % 256) as nat,
        ) + "."@ + decimal(((addr / 256) % 256) as nat) + "."@ + decimal((addr % 256) as nat),
{
    law_octets_of_an_address(addr);
    let parts = Seq::new(4, |i: int| decimal(v4_octet(addr, i)));
    reveal_with_fuel(join, 4);
    assert(parts.drop_last().drop_last().drop_last()[0] == parts[0]);
}

/// The segments of an IPv6 address are those of its number, sixteen bits each, the most
/// significant one first.
pub proof fn law_segments_of_an_address(addr: Ipv6Addr)
    ensures
        segment(addr, 0) == addr / 0x1_0000_0000_0000_0000_0000_0000_0000,
        segment(addr, 1) == (addr / 0x1_0000_0000_0000_0000_0000_0000) % 0x1_0000,
        segment(addr, 2) == (addr / 0x1_0000_0000_0000_0000_0000) % 0x1_0000,
        segment(addr, 3) == (addr / 0x1_0000_0000_0000_0000) % 0x1_0000,
        segment(addr, 4) == (addr / 0x1_0000_0000_0000) % 0x1_0000,
        segment(addr, 5) == (addr / 0x1_0000_0000) % 0x1_0000,
        segment(addr, 6) == (addr / 0x1_0000) % 0x1_0000,
        segment(addr, 7) == addr % 0x1_0000,
{
    assert((addr >> 112u128) & 0xffff == addr / 0x1_0000_0000_0000_0000_0000_0000_0000)
        by (bit_vector);
    assert((addr >> 96u128) & 0xffff == (addr / 0x1_0000_0000_0000_0000_0000_0000) % 0x1_0000)
        by (bit_vector);
    assert((addr >> 80u128) & 0xffff == (addr / 0x1_0000_0000_0000_0000_0000) % 0x1_0000)
        by (bit_vector);
    assert((addr >> 64u128) & 0xffff == (addr / 0x1_0000_0000_0000_0000) % 0x1_0000)
        by (bit_vector);
    assert((addr >> 48u128) & 0xffff == (addr / 0x1_0000_0000_0000) % 0x1_0000) by (bit_vector);
    assert((addr >> 32u128) & 0xffff == (addr / 0x1_0000_0000) % 0x1_0000) by (bit_vector);
    assert((addr >> 16u128) & 0xffff == (addr / 0x1_0000) % 0x1_0000) by (bit_vector);
    assert((addr >> 0u128) & 0xffff == addr % 0x1_0000) by (bit_vector);
}

/// An address is an IPv4-mapped one just where its number is that of an IPv4 address
/// above `::ffff:0:0`, and it then ends in the text of that address.
pub proof fn law_text_of_a_mapped_address(addr: Ipv4Addr)
    ensures
        is_v4_mapped((0xffff_0000_0000 + addr) as u128),
        ipv6_text((0xffff_0000_0000 + addr) as u128) == "::ffff:"@ + ipv4_text(addr),
{
    let wide = addr as u128;
    let mapped = (0xffff_0000_0000 + addr) as u128;
    assert(mapped == 0xffff_0000_0000u128 | wide) by {
        assert(0xffff_0000_0000u128 + wide == 0xffff_0000_0000u128 | wide) by (bit_vector)
            requires
                wide <= 0xffff_ffff,
        ;
    }
    assert((0xffff_0000_0000u128 | wide) >> 32u128 == 0xffff) by (bit_vector)
        requires
            wide <= 0xffff_ffff,
    ;
    assert((0xffff_0000_0000u128 | wide) & 0xffff_ffff == wide) by (bit_vector)
        requires
            wide <= 0xffff_ffff,
    ;
}

/// A run of zero segments goes on from where it starts up to a segment that is not
/// zero, or to the end.
pub proof fn lemma_zero_run(addr: Ipv6Addr, i: int)
    requires
        0 <= i <= 8,
    ensures
        0 <= zero_run(addr, i) <= 8 - i,
        forall|k: int| i <= k < i + zero_run(addr, i) ==> #[trigger] segment(addr, k) == 0,
        i + zero_run(addr, i) < 8 ==> segment(addr, i + zero_run(addr, i)) != 0,
    decreases 8 - i,
{
    if i < 8 {
        lemma_zero_run(addr, i + 1);
    }
}

/// The longest run is at least as long as each other one, and longer than those that
/// start before it.
pub proof fn lemma_longest_zero_run(addr: Ipv6Addr, n: int)
    requires
        1 <= n <= 8,
    ensures
        0 <= longest_zero_run(addr, n) < n,
        forall|i: int|
            0 <= i < n ==> #[trigger] zero_run(addr, i) <= zero_run(
                addr,
                longest_zero_run(addr, n),
            ),
        forall|i: int|
            0 <= i < longest_zero_run(addr, n) ==> #[trigger] zero_run(addr, i) < zero_run(
                addr,
                longest_zero_run(addr, n),
            ),
    decreases n,
{
    if n > 1 {
        lemma_longest_zero_run(addr, n - 1);
    }
}

/// Zero segments that follow each other are within the run from the first of them.
proof fn lemma_run_is_whole(addr: Ipv6Addr, i: int, len: int)
    requires
        0 <= i,
        0 <= len,
        i + len <= 8,
        forall|k: int| i <= k < i + len ==> #[trigger] segment(addr, k) == 0,
    ensures
        len <= zero_run(addr, i),
    decreases len,
{
    lemma_zero_run(addr, i);
    if len > 0 {
        assert(segment(addr, i) == 0);
        lemma_run_is_whole(addr, i + 1, len - 1);
    }
}

/// The text of an address that is not a mapped one are its segments in hexadecimal.
/// Where two or more zero segments follow each other, the longest such run, and the
/// first of several, is left out, with two colons in its place; and otherwise none is.
pub proof fn law_text_of_an_ipv6_address(addr: Ipv6Addr)
    requires
        !is_v4_mapped(addr),
    ensures
        (exists|i: int|
            0 <= i < 7 && #[trigger] segment(addr, i) == 0 && segment(addr, i + 1) == 0)
            ==> exists|start: int, len: int|
            {
                &&& 0 <= start
                &&& len >= 2
                &&& start + len <= 8
                &&& forall|k: int| start <= k < start + len ==> #[trigger] segment(addr, k) == 0
                &&& start + len < 8 ==> segment(addr, start + len) != 0
                &&& forall|i: int|
                    0 <= i < 8 ==> #[trigger] zero_run(addr, i) <= len && (i < start ==> zero_run(
                        addr,
                        i,
                    ) < len)
                &&& ipv6_text(addr) == #[trigger] segments_text(addr, 0, start) + "::"@
                    + #[trigger] segments_text(addr, start + len, 8)
            },
        !(exists|i: int|
            0 <= i < 7 && #[trigger] segment(addr, i) == 0 && segment(addr, i + 1) == 0)
            ==> ipv6_text(addr) == segments_text(addr, 0, 8),
{
    let start = longest_zero_run(addr, 8);
    let len = zero_run(addr, start);
    lemma_longest_zero_run(addr, 8);
    lemma_zero_run(addr, start);
    if exists|i: int|
        0 <= i < 7 && #[trigger] segment(addr, i) == 0 && segment(addr, i + 1) == 0 {
        let i = choose|i: int|
            0 <= i < 7 && #[trigger] segment(addr, i) == 0 && segment(addr, i + 1) == 0;
        lemma_run_is_whole(addr, i, 2);
        assert(zero_run(addr, i) <= len);
        assert(ipv6_text(addr) == segments_text(addr, 0, start) + "::"@ + segments_text(
            addr,
            start + len,
            8,
        ));
    } else if len > 1 {
        assert(segment(addr, start) == 0 && segment(addr, start + 1) == 0);
    }
}

/// The length of a run of zero segments: as many as are zero from there on, without a
/// gap.
pub proof fn law_run_of_zero_segments(addr: Ipv6Addr, i: int, len: int)
    requires
        0 <= i <= 8,
        0 <= len,
        i + len <= 8,
    ensures
        zero_run(addr, i) >= len <==> forall|k: int|
            i <= k < i + len ==> #[trigger] segment(addr, k) == 0,
{
    lemma_zero_run(addr, i);
    if forall|k: int| i <= k < i + len ==> #[trigger] segment(addr, k) == 0 {
        lemma_run_is_whole(addr, i, len);
    }
}

/// The segments in a stretch are written in hexadecimal, with colons between.
pub proof fn law_text_of_segments(addr: Ipv6Addr, from: int, to: int)
    requires
        from <= to,
    ensures
        segments_text(addr, from, from).len() == 0,
        segments_text(addr, from, from + 1) == hexadecimal(segment(addr, from)),
        from < to ==> segments_text(addr, from, to + 1) == segments_text(addr, from, to) + ":"@
            + hexadecimal(segment(addr, to)),
{
    let parts = |n: int| Seq::new(n as nat, |i: int| hexadecimal(segment(addr, from + i)));
    assert(parts(1) =~= seq![hexadecimal(segment(addr, from))]);
    assert(parts(to + 1 - from).drop_last() =~= parts(to - from));
}

/// How ranges of addresses are shown.
pub proof fn law_text_of_a_range(v4: Ipv4Range, v6: Ipv6Range)
    ensures
        range_text(IpRange::V4(v4)) == "V4(Ipv4Range { first: "@ + ipv4_text(v4.first)
            + ", last: "@ + ipv4_text(v4.last) + " })"@,
        range_text(IpRange::V6(v6)) == "V6(Ipv6Range { first: "@ + ipv6_text(v6.first)
            + ", last: "@ + ipv6_text(v6.last) + " })"@,
{
}

/// A list of ranges is shown in brackets, with commas between.
pub proof fn law_text_of_ranges(ranges: Seq<IpRange>, more: IpRange, inner: Seq<char>)
    requires
        ranges_text(ranges) == "["@ + inner + "]"@,
        ranges.len() > 0,
    ensures
        ranges_text(Seq::empty()) == "["@ + "]"@,
        ranges_text(seq![more]) == "["@ + range_text(more) + "]"@,
        ranges_text(ranges.push(more)) == "["@ + (inner + ", "@ + range_text(more)) + "]"@,
{
    let show = |r: IpRange| range_text(r);
    let parts = ranges.map_values(show);
    reveal_strlit("[");
    reveal_strlit("]");
    assert(ranges_text(Seq::empty()) =~= "["@ + "]"@) by {
        assert(Seq::<IpRange>::empty().map_values(show) =~= Seq::empty());
    }
    assert(seq![more].map_values(show) =~= seq![range_text(more)]);
    assert(ranges.push(more).map_values(show) =~= parts.push(range_text(more)));
    law_joined_parts(parts, range_text(more), ", "@);
    let shown = ranges_text(ranges);
    let all = join(parts, ", "@);
    assert(shown.subrange(1, shown.len() - 1) =~= all);
    assert(("["@ + inner + "]"@).subrange(1, shown.len() - 1) =~= inner);
}

/// The text of a socket address: an IPv6 address stands in brackets, and is followed by
/// its scope where it has one. The port comes last.
pub proof fn law_text_of_a_socket_address(v4: SocketAddrV4, v6: SocketAddrV6)
    ensures
        SocketAddr::V4(v4).text() == ipv4_text(v4.ip) + ":"@ + decimal(v4.port as nat),
        v6.scope_id == 0 ==> SocketAddr::V6(v6).text() == "["@ + ipv6_text(v6.ip) + "]:"@
            + decimal(v6.port as nat),
        v6.scope_id != 0 ==> SocketAddr::V6(v6).text() == "["@ + ipv6_text(v6.ip) + "%"@
            + decimal(v6.scope_id as nat) + "]:"@ + decimal(v6.port as nat),
        SocketAddr::V4(v4).port_of() == v4.port,
        SocketAddr::V6(v6).port_of() == v6.port,
{
}

// ---
// Time
// ---

/// A time is shown by its whole seconds and the rest, so that times that are the same
/// instant are shown alike. The years from 1970 to 9999 can be shown.
pub proof fn law_text_of_a_time(time: Timestamp, other: Timestamp)
    ensures
        time.instant() == time.secs * 1_000_000_000 + time.nanos,
        time.printable() <==> 0 <= time.instant() < 253_402_300_800 * 1_000_000_000,
        0 <= time.secs && time.nanos < 1_000_000_000 ==> time.text() == rfc3339_millis(
            time.secs as u64,
            time.nanos,
        ),
        time.instant() == other.instant() ==> time.text() == other.text(),
        time.in_range() <==> 0 <= time.secs <= 8_210_266_876_799 && time.nanos < 1_000_000_000,
{
}

/// A time that lies a length before another one is that length away from it. There is
/// one unless the length or the time is out of reach, and then only one.
pub proof fn law_time_before(
    r: Option<Timestamp>,
    again: Option<Timestamp>,
    time: Timestamp,
    length: Duration,
)
    requires
        is_earlier_by(r, time, length),
        is_earlier_by(again, time, length),
    ensures
        r is Some ==> r->0.secs * 1_000_000_000 + r->0.nanos + length.secs * 1_000_000_000
            + length.nanos == time.secs * 1_000_000_000 + time.nanos,
        r is Some ==> r->0.nanos < 1_000_000_000,
        r is None <==> {
            ||| length.secs * 1_000_000_000 + length.nanos > 0x7fff_ffff_ffff_ffff * 1_000_000
            ||| (time.secs * 1_000_000_000 + time.nanos) - (length.secs * 1_000_000_000
                + length.nanos) < -8_334_601_228_800 * 1_000_000_000
        },
        r == again,
        length.well_formed() <==> length.nanos < 1_000_000_000,
{
}

} // verus!
