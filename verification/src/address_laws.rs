//! That different addresses have different texts.

use vstd::prelude::*;

use crate::net::{
    ipv4_text, ipv6_text, is_v4_mapped, longest_zero_run, segment, segments_text, v4_octet,
    zero_run, Ipv4Addr, Ipv6Addr,
};
use crate::text::{decimal, hexadecimal, join};
use crate::text_laws::{
    law_decimal_is_read_back, law_hexadecimal_is_read_back, law_numbers_differ_in_text,
    law_octets_of_an_address, lemma_longest_zero_run, lemma_zero_run,
};

verus! {

// ---
// Taking texts apart
// ---

/// The parts of a text between separators.
pub open spec fn split(text: Seq<char>, separator: char) -> Seq<Seq<char>>
    decreases text.len(),
{
    if text.len() == 0 {
        seq![Seq::empty()]
    } else {
        let before = split(text.drop_last(), separator);
        if text.last() == separator {
            before.push(Seq::empty())
        } else {
            before.drop_last().push(before.last().push(text.last()))
        }
    }
}

proof fn lemma_split_is_not_empty(text: Seq<char>, separator: char)
    ensures
        split(text, separator).len() > 0,
    decreases text.len(),
{
    if text.len() > 0 {
        lemma_split_is_not_empty(text.drop_last(), separator);
    }
}

proof fn lemma_split_of_one_part(text: Seq<char>, separator: char)
    requires
        !text.contains(separator),
    ensures
        split(text, separator) == seq![text],
    decreases text.len(),
{
    if text.len() > 0 {
        let before = text.drop_last();
        assert(text[text.len() - 1] != separator);
        if before.contains(separator) {
            let i = choose|i: int| 0 <= i < before.len() && before[i] == separator;
            assert(text[i] == separator);
        }
        lemma_split_of_one_part(before, separator);
        assert(before.push(text.last()) =~= text);
        assert(split(text, separator) =~= seq![text]);
    } else {
        assert(text =~= Seq::empty());
    }
}

proof fn lemma_split_at_separator(a: Seq<char>, b: Seq<char>, separator: char)
    ensures
        split(a + seq![separator] + b, separator) == split(a, separator) + split(b, separator),
    decreases b.len(),
{
    let whole = a + seq![separator] + b;
    lemma_split_is_not_empty(a, separator);
    if b.len() == 0 {
        assert(whole.drop_last() =~= a);
        assert(split(whole, separator) =~= split(a, separator) + split(b, separator));
    } else {
        let rest = b.drop_last();
        lemma_split_at_separator(a, rest, separator);
        lemma_split_is_not_empty(rest, separator);
        assert(whole.drop_last() =~= a + seq![separator] + rest);
        assert(whole.last() == b.last());
        assert(split(whole, separator) =~= split(a, separator) + split(b, separator));
    }
}

proof fn lemma_split_of_joined(parts: Seq<Seq<char>>, text: Seq<char>, separator: char)
    requires
        parts.len() > 0,
        text.len() == 1 && text[0] == separator,
        forall|i: int| 0 <= i < parts.len() ==> !(#[trigger] parts[i]).contains(separator),
    ensures
        split(join(parts, text), separator) == parts,
    decreases parts.len(),
{
    assert(text =~= seq![separator]);
    lemma_split_of_one_part(parts[parts.len() - 1], separator);
    if parts.len() == 1 {
        assert(parts =~= seq![parts[0]]);
    } else {
        let rest = parts.drop_last();
        assert forall|i: int| 0 <= i < rest.len() implies !(#[trigger] rest[i]).contains(
            separator,
        ) by {
            assert(rest[i] == parts[i]);
        }
        lemma_split_of_joined(rest, text, separator);
        lemma_split_at_separator(join(rest, text), parts.last(), separator);
        assert(rest + seq![parts.last()] =~= parts);
    }
}

// ---
// IPv4 addresses
// ---

spec fn octets_in_decimal(addr: Ipv4Addr) -> Seq<Seq<char>> {
    Seq::new(4, |i: int| decimal(v4_octet(addr, i)))
}

proof fn lemma_octets_hold_no_dots(addr: Ipv4Addr)
    ensures
        split(ipv4_text(addr), '.') == octets_in_decimal(addr),
        ipv4_text(addr).contains('.'),
{
    reveal_strlit(".");
    let parts = octets_in_decimal(addr);
    assert forall|i: int| 0 <= i < parts.len() implies !(#[trigger] parts[i]).contains('.') by {
        law_decimal_is_read_back(v4_octet(addr, i));
    }
    lemma_split_of_joined(parts, "."@, '.');
    let text = ipv4_text(addr);
    if !text.contains('.') {
        lemma_split_of_one_part(text, '.');
        assert(parts.len() == 4);
    }
}

/// Different IPv4 addresses have different texts.
pub proof fn law_ipv4_addresses_differ_in_text(a: Ipv4Addr, b: Ipv4Addr)
    requires
        ipv4_text(a) == ipv4_text(b),
    ensures
        a == b,
{
    lemma_octets_hold_no_dots(a);
    lemma_octets_hold_no_dots(b);
    let (p, q) = (octets_in_decimal(a), octets_in_decimal(b));
    assert(p[0] == q[0] && p[1] == q[1] && p[2] == q[2] && p[3] == q[3]);
    law_numbers_differ_in_text(v4_octet(a, 0), v4_octet(b, 0));
    law_numbers_differ_in_text(v4_octet(a, 1), v4_octet(b, 1));
    law_numbers_differ_in_text(v4_octet(a, 2), v4_octet(b, 2));
    law_numbers_differ_in_text(v4_octet(a, 3), v4_octet(b, 3));
    law_octets_of_an_address(a);
    law_octets_of_an_address(b);
}

// ---
// IPv6 addresses
// ---

spec fn segments_in_hexadecimal(addr: Ipv6Addr, from: int, to: int) -> Seq<Seq<char>> {
    Seq::new((to - from) as nat, |i: int| hexadecimal(segment(addr, from + i)))
}

proof fn lemma_segments_hold_no_colons(addr: Ipv6Addr, from: int, to: int)
    requires
        from <= to,
    ensures
        from < to ==> split(segments_text(addr, from, to), ':') == segments_in_hexadecimal(
            addr,
            from,
            to,
        ),
        from == to ==> split(segments_text(addr, from, to), ':') == seq![Seq::<char>::empty()],
        forall|i: int|
            from <= i < to ==> (#[trigger] hexadecimal(segment(addr, i))).len() > 0,
        !segments_text(addr, from, to).contains('.'),
{
    reveal_strlit(":");
    let parts = segments_in_hexadecimal(addr, from, to);
    assert forall|i: int| from <= i < to implies (#[trigger] hexadecimal(segment(addr, i))).len()
        > 0 by {
        law_hexadecimal_is_read_back(segment(addr, i));
    }
    assert forall|i: int| 0 <= i < parts.len() implies !(#[trigger] parts[i]).contains(':')
        && !parts[i].contains('.') by {
        law_hexadecimal_is_read_back(segment(addr, from + i));
    }
    if from < to {
        lemma_split_of_joined(parts, ":"@, ':');
    }
    lemma_joined_without(parts, ":"@, '.');
}

proof fn lemma_joined_without(parts: Seq<Seq<char>>, separator: Seq<char>, c: char)
    requires
        forall|i: int| 0 <= i < parts.len() ==> !(#[trigger] parts[i]).contains(c),
        !separator.contains(c),
    ensures
        !join(parts, separator).contains(c),
    decreases parts.len(),
{
    let text = join(parts, separator);
    if parts.len() > 1 {
        let rest = parts.drop_last();
        assert forall|i: int| 0 <= i < rest.len() implies !(#[trigger] rest[i]).contains(c) by {
            assert(rest[i] == parts[i]);
        }
        lemma_joined_without(rest, separator, c);
        let before = join(rest, separator);
        let last = parts[parts.len() - 1];
        if text.contains(c) {
            let i = choose|i: int| 0 <= i < text.len() && text[i] == c;
            if i < before.len() {
                assert(before[i] == c);
            } else if i < before.len() + separator.len() {
                assert(separator[i - before.len()] == c);
            } else {
                assert(last[i - before.len() - separator.len()] == c);
            }
        }
    } else if parts.len() == 1 {
        assert(!parts[0].contains(c));
    }
}

/// What the text of an address that is not a mapped one is made of.
proof fn lemma_parts_of_the_text(addr: Ipv6Addr)
    requires
        !is_v4_mapped(addr),
    ensures
        ({
            let start = longest_zero_run(addr, 8);
            let len = zero_run(addr, start);
            let parts = split(ipv6_text(addr), ':');
            &&& 0 <= start < 8
            &&& 0 <= len
            &&& start + len <= 8
            &&& forall|k: int| start <= k < start + len ==> #[trigger] segment(addr, k) == 0
            &&& len <= 1 ==> parts == segments_in_hexadecimal(addr, 0, 8)
            &&& len > 1 ==> parts == split(segments_text(addr, 0, start), ':') + seq![
                Seq::<char>::empty(),
            ] + split(segments_text(addr, start + len, 8), ':')
            &&& !ipv6_text(addr).contains('.')
        }),
{
    reveal_strlit("::");
    let start = longest_zero_run(addr, 8);
    let len = zero_run(addr, start);
    lemma_longest_zero_run(addr, 8);
    lemma_zero_run(addr, start);
    lemma_segments_hold_no_colons(addr, 0, 8);
    lemma_segments_hold_no_colons(addr, 0, start);
    lemma_segments_hold_no_colons(addr, start + len, 8);
    if len > 1 {
        let (a, b) = (segments_text(addr, 0, start), segments_text(addr, start + len, 8));
        let colon = seq![':'];
        let none = Seq::<char>::empty();
        assert("::"@ =~= colon + none + colon);
        assert(ipv6_text(addr) =~= a + colon + (none + colon + b));
        lemma_split_at_separator(a, none + colon + b, ':');
        lemma_split_at_separator(none, b, ':');
        assert(split(none, ':') =~= seq![none]);
        let text = ipv6_text(addr);
        if text.contains('.') {
            let i = choose|i: int| 0 <= i < text.len() && text[i] == '.';
            if i < a.len() {
                assert(a[i] == '.');
            } else if i >= a.len() + 2 {
                assert(b[i - a.len() - 2] == '.');
            }
        }
    }
}

proof fn lemma_same_segments(a: Ipv6Addr, b: Ipv6Addr)
    requires
        forall|i: int| 0 <= i < 8 ==> #[trigger] segment(a, i) == segment(b, i),
    ensures
        a == b,
{
    assert(segment(a, 0) == segment(b, 0) && segment(a, 1) == segment(b, 1));
    assert(segment(a, 2) == segment(b, 2) && segment(a, 3) == segment(b, 3));
    assert(segment(a, 4) == segment(b, 4) && segment(a, 5) == segment(b, 5));
    assert(segment(a, 6) == segment(b, 6) && segment(a, 7) == segment(b, 7));
    assert(a == b) by (bit_vector)
        requires
            (a >> 112u128) & 0xffff == (b >> 112u128) & 0xffff,
            (a >> 96u128) & 0xffff == (b >> 96u128) & 0xffff,
            (a >> 80u128) & 0xffff == (b >> 80u128) & 0xffff,
            (a >> 64u128) & 0xffff == (b >> 64u128) & 0xffff,
            (a >> 48u128) & 0xffff == (b >> 48u128) & 0xffff,
            (a >> 32u128) & 0xffff == (b >> 32u128) & 0xffff,
            (a >> 16u128) & 0xffff == (b >> 16u128) & 0xffff,
            (a >> 0u128) & 0xffff == (b >> 0u128) & 0xffff,
    ;
}

proof fn lemma_same_part(a: Ipv6Addr, b: Ipv6Addr, from: int, to: int, i: int)
    requires
        segments_in_hexadecimal(a, from, to) == segments_in_hexadecimal(b, from, to),
        from <= i < to,
    ensures
        segment(a, i) == segment(b, i),
{
    let (p, q) = (segments_in_hexadecimal(a, from, to), segments_in_hexadecimal(b, from, to));
    assert(p[i - from] == hexadecimal(segment(a, i)));
    assert(q[i - from] == hexadecimal(segment(b, i)));
    law_numbers_differ_in_text(segment(a, i), segment(b, i));
}

/// Two addresses that both leave out a run, and have the same text, leave out the same
/// run and have the same segments besides.
proof fn lemma_same_shortened(a: Ipv6Addr, b: Ipv6Addr)
    requires
        !is_v4_mapped(a),
        !is_v4_mapped(b),
        ipv6_text(a) == ipv6_text(b),
        zero_run(a, longest_zero_run(a, 8)) > 1,
        zero_run(b, longest_zero_run(b, 8)) > 1,
    ensures
        a == b,
{
    let (s, t) = (longest_zero_run(a, 8), longest_zero_run(b, 8));
    let (m, n) = (zero_run(a, s), zero_run(b, t));
    lemma_parts_of_the_text(a);
    lemma_parts_of_the_text(b);
    lemma_segments_hold_no_colons(a, 0, s);
    lemma_segments_hold_no_colons(b, 0, t);
    lemma_segments_hold_no_colons(a, s + m, 8);
    lemma_segments_hold_no_colons(b, t + n, 8);
    let (front, other_front) = (
        split(segments_text(a, 0, s), ':'),
        split(segments_text(b, 0, t), ':'),
    );
    let (back, other_back) = (
        split(segments_text(a, s + m, 8), ':'),
        split(segments_text(b, t + n, 8), ':'),
    );
    let gap = seq![Seq::<char>::empty()];
    let parts = split(ipv6_text(a), ':');
    assert(parts == front + gap + back);
    assert(parts == other_front + gap + other_back);
    assert(front.len() == if s > 0 {
        s
    } else {
        1
    });
    assert(other_front.len() == if t > 0 {
        t
    } else {
        1
    });
    assert(parts[0] == front[0] && parts[0] == other_front[0]);
    assert(s > 0 ==> front[0] == hexadecimal(segment(a, 0)));
    assert(t > 0 ==> other_front[0] == hexadecimal(segment(b, 0)));
    assert(s == 0 <==> t == 0);
    assert(parts[front.len() as int].len() == 0);
    assert(parts[other_front.len() as int].len() == 0);
    if s < t {
        assert(parts[s] == other_front[s]);
        assert(other_front[s] == hexadecimal(segment(b, s)));
    }
    if t < s {
        assert(parts[t] == front[t]);
        assert(front[t] == hexadecimal(segment(a, t)));
    }
    assert(s == t);
    assert(front =~= other_front) by {
        assert(parts.take(front.len() as int) =~= front);
        assert(parts.take(front.len() as int) =~= other_front);
    }
    assert(back =~= other_back) by {
        let at = front.len() as int + 1;
        assert(parts.skip(at) =~= back);
        assert(parts.skip(at) =~= other_back);
    }
    assert(back.len() == if s + m < 8 {
        8 - s - m
    } else {
        1
    });
    assert(other_back.len() == if t + n < 8 {
        8 - t - n
    } else {
        1
    });
    assert(s + m < 8 ==> back[0] == hexadecimal(segment(a, s + m)));
    assert(t + n < 8 ==> other_back[0] == hexadecimal(segment(b, t + n)));
    assert(s + m < 8 <==> t + n < 8);
    assert(m == n);
    assert forall|i: int| 0 <= i < 8 implies #[trigger] segment(a, i) == segment(b, i) by {
        if i < s {
            lemma_same_part(a, b, 0, s, i);
        } else if i >= s + m {
            lemma_same_part(a, b, s + m, 8, i);
        }
    }
    lemma_same_segments(a, b);
}

/// Different IPv6 addresses have different texts.
pub proof fn law_ipv6_addresses_differ_in_text(a: Ipv6Addr, b: Ipv6Addr)
    requires
        ipv6_text(a) == ipv6_text(b),
    ensures
        a == b,
{
    if is_v4_mapped(a) && is_v4_mapped(b) {
        let (x, y) = ((a & 0xffff_ffff) as u32, (b & 0xffff_ffff) as u32);
        let n = "::ffff:"@.len() as int;
        assert(ipv6_text(a).skip(n) =~= ipv4_text(x));
        assert(ipv6_text(b).skip(n) =~= ipv4_text(y));
        law_ipv4_addresses_differ_in_text(x, y);
        assert(a & 0xffff_ffff <= 0xffff_ffff) by (bit_vector);
        assert(b & 0xffff_ffff <= 0xffff_ffff) by (bit_vector);
        assert(a == b) by (bit_vector)
            requires
                a >> 32u128 == 0xffff,
                b >> 32u128 == 0xffff,
                a & 0xffff_ffff == b & 0xffff_ffff,
        ;
    } else if is_v4_mapped(a) {
        lemma_mapped_text_has_a_dot(a);
        lemma_parts_of_the_text(b);
    } else if is_v4_mapped(b) {
        lemma_mapped_text_has_a_dot(b);
        lemma_parts_of_the_text(a);
    } else {
        lemma_parts_of_the_text(a);
        lemma_parts_of_the_text(b);
        let (s, t) = (longest_zero_run(a, 8), longest_zero_run(b, 8));
        let (m, n) = (zero_run(a, s), zero_run(b, t));
        if m > 1 && n > 1 {
            lemma_same_shortened(a, b);
        } else if m <= 1 && n <= 1 {
            assert forall|i: int| 0 <= i < 8 implies #[trigger] segment(a, i) == segment(
                b,
                i,
            ) by {
                lemma_same_part(a, b, 0, 8, i);
            }
            lemma_same_segments(a, b);
        } else if m > 1 {
            lemma_whole_and_shortened_differ(b, a);
        } else {
            lemma_whole_and_shortened_differ(a, b);
        }
    }
}

proof fn lemma_mapped_text_has_a_dot(addr: Ipv6Addr)
    requires
        is_v4_mapped(addr),
    ensures
        ipv6_text(addr).contains('.'),
{
    let low = (addr & 0xffff_ffff) as u32;
    lemma_octets_hold_no_dots(low);
    let (text, end) = (ipv6_text(addr), ipv4_text(low));
    let i = choose|i: int| 0 <= i < end.len() && end[i] == '.';
    assert(text["::ffff:"@.len() + i] == '.');
}

proof fn lemma_whole_and_shortened_differ(whole: Ipv6Addr, shortened: Ipv6Addr)
    requires
        !is_v4_mapped(whole),
        !is_v4_mapped(shortened),
        zero_run(whole, longest_zero_run(whole, 8)) <= 1,
        zero_run(shortened, longest_zero_run(shortened, 8)) > 1,
    ensures
        ipv6_text(whole) != ipv6_text(shortened),
{
    lemma_parts_of_the_text(whole);
    lemma_parts_of_the_text(shortened);
    lemma_segments_hold_no_colons(whole, 0, 8);
    if ipv6_text(whole) == ipv6_text(shortened) {
        let s = longest_zero_run(shortened, 8);
        let front = split(segments_text(shortened, 0, s), ':');
        let parts = split(ipv6_text(whole), ':');
        let at = front.len() as int;
        assert(parts[at].len() == 0);
        assert(parts[at] == hexadecimal(segment(whole, at)));
    }
}

} // verus!
