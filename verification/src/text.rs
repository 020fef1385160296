//! Plain text: decimal and hexadecimal numbers, UUIDs, joined lists.

use vstd::prelude::*;

verus! {

/// A UUID, as the big-endian number its sixteen bytes spell.
pub type Uuid = u128;

/// The lower-case hexadecimal digit for a number below sixteen.
pub open spec fn hex_digit(n: int) -> char {
    seq!['0', '1', '2', '3', '4', '5', '6', '7', '8', '9', 'a', 'b', 'c', 'd', 'e', 'f'][n]
}

/// A number in decimal, without leading zeros.
pub open spec fn decimal(n: nat) -> Seq<char>
    decreases n,
{
    if n < 10 {
        seq![hex_digit(n as int)]
    } else {
        decimal(n / 10).push(hex_digit((n % 10) as int))
    }
}

/// A number in lower-case hexadecimal, without leading zeros.
pub open spec fn hexadecimal(n: nat) -> Seq<char>
    decreases n,
{
    if n < 16 {
        seq![hex_digit(n as int)]
    } else {
        hexadecimal(n / 16).push(hex_digit((n % 16) as int))
    }
}

/// The hexadecimal digit of a UUID at position `k`, counted from the left.
pub open spec fn uuid_nibble(id: Uuid, k: int) -> u128 {
    (id >> ((31 - k) * 4)) & 0xf
}

/// Whether a hyphen stands at position `i` of a UUID's text.
pub open spec fn uuid_hyphen(i: int) -> bool {
    i == 8 || i == 13 || i == 18 || i == 23
}

/// How many hyphens stand before position `i` of a UUID's text.
pub open spec fn uuid_hyphens_before(i: int) -> int {
    if i <= 8 {
        0
    } else if i <= 13 {
        1
    } else if i <= 18 {
        2
    } else if i <= 23 {
        3
    } else {
        4
    }
}

/// The hyphenated text of a UUID: 32 lower-case hexadecimal digits in groups
/// of 8, 4, 4, 4 and 12.
pub open spec fn uuid_text(id: Uuid) -> Seq<char> {
    Seq::new(
        36,
        |i: int|
            if uuid_hyphen(i) {
                '-'
            } else {
                hex_digit(uuid_nibble(id, i - uuid_hyphens_before(i)) as int)
            },
    )
}

/// The parts in order, with the separator between each two of them.
pub open spec fn join(parts: Seq<Seq<char>>, separator: Seq<char>) -> Seq<char>
    decreases parts.len(),
{
    if parts.len() == 0 {
        Seq::empty()
    } else if parts.len() == 1 {
        parts[0]
    } else {
        join(parts.drop_last(), separator) + separator + parts.last()
    }
}

/// Whether the first text comes before the second in the order of characters.
pub open spec fn text_before(a: Seq<char>, b: Seq<char>) -> bool
    decreases a.len(),
{
    if b.len() == 0 {
        false
    } else if a.len() == 0 {
        true
    } else if a[0] != b[0] {
        a[0] < b[0]
    } else {
        text_before(a.drop_first(), b.drop_first())
    }
}

/// Whether each text comes before those that follow it.
pub open spec fn in_text_order(list: Seq<Seq<char>>) -> bool {
    forall|i: int, j: int|
        #![trigger list[i], list[j]]
        0 <= i < j < list.len() ==> text_before(list[i], list[j])
}

pub proof fn lemma_text_before_irreflexive(a: Seq<char>)
    ensures
        !text_before(a, a),
    decreases a.len(),
{
    if a.len() > 0 {
        lemma_text_before_irreflexive(a.drop_first());
    }
}

pub proof fn lemma_text_before_asymmetric(a: Seq<char>, b: Seq<char>)
    requires
        text_before(a, b),
    ensures
        !text_before(b, a),
    decreases a.len(),
{
    if a.len() > 0 && b.len() > 0 && a[0] == b[0] {
        lemma_text_before_asymmetric(a.drop_first(), b.drop_first());
    }
}

pub proof fn lemma_text_before_transitive(a: Seq<char>, b: Seq<char>, c: Seq<char>)
    requires
        text_before(a, b),
        text_before(b, c),
    ensures
        text_before(a, c),
    decreases a.len(),
{
    if a.len() > 0 && a[0] == b[0] && b[0] == c[0] {
        lemma_text_before_transitive(a.drop_first(), b.drop_first(), c.drop_first());
    }
}

pub proof fn lemma_text_before_total(a: Seq<char>, b: Seq<char>)
    requires
        a != b,
    ensures
        text_before(a, b) || text_before(b, a),
    decreases a.len(),
{
    if a.len() > 0 && b.len() > 0 && a[0] == b[0] {
        if a.drop_first() == b.drop_first() {
            assert(a =~= seq![a[0]] + a.drop_first());
            assert(b =~= seq![b[0]] + b.drop_first());
        }
        lemma_text_before_total(a.drop_first(), b.drop_first());
    } else if a.len() == 0 && b.len() == 0 {
        assert(a =~= b);
    }
}

/// Whether the first text comes before the second in the order of characters.
pub fn is_text_before(a: &str, b: &str) -> (r: bool)
    ensures
        r == text_before(a@, b@),
{
    let (m, n): (usize, usize) = (a.unicode_len(), b.unicode_len());
    let mut i: usize = 0;
    assert(a@.skip(0) =~= a@ && b@.skip(0) =~= b@);
    while i < m && i < n
        invariant
            i <= m == a@.len(),
            i <= n == b@.len(),
            text_before(a@, b@) == text_before(a@.skip(i as int), b@.skip(i as int)),
        decreases m - i,
    {
        let (x, y) = (a.get_char(i), b.get_char(i));
        if x != y {
            return x < y;
        }
        assert(a@.skip(i as int).drop_first() =~= a@.skip(i + 1));
        assert(b@.skip(i as int).drop_first() =~= b@.skip(i + 1));
        i = i + 1;
    }
    i < n
}

/// What each string of a list holds.
pub open spec fn texts(list: Seq<String>) -> Seq<Seq<char>> {
    list.map_values(|s: String| s@)
}

fn digit_str(d: u64) -> (r: &'static str)
    requires
        d < 16,
    ensures
        r@ == seq![hex_digit(d as int)],
{
    proof {
        reveal_strlit("0");
        reveal_strlit("1");
        reveal_strlit("2");
        reveal_strlit("3");
        reveal_strlit("4");
        reveal_strlit("5");
        reveal_strlit("6");
        reveal_strlit("7");
        reveal_strlit("8");
        reveal_strlit("9");
        reveal_strlit("a");
        reveal_strlit("b");
        reveal_strlit("c");
        reveal_strlit("d");
        reveal_strlit("e");
        reveal_strlit("f");
    }
    match d {
        0 => "0",
        1 => "1",
        2 => "2",
        3 => "3",
        4 => "4",
        5 => "5",
        6 => "6",
        7 => "7",
        8 => "8",
        9 => "9",
        10 => "a",
        11 => "b",
        12 => "c",
        13 => "d",
        14 => "e",
        _ => "f",
    }
}

/// A number in decimal.
pub fn decimal_string(n: u64) -> (r: String)
    ensures
        r@ == decimal(n as nat),
    decreases n,
{
    if n < 10 {
        digit_str(n).to_owned()
    } else {
        decimal_string(n / 10).concat(digit_str(n % 10))
    }
}

/// A number in lower-case hexadecimal.
pub fn hexadecimal_string(n: u64) -> (r: String)
    ensures
        r@ == hexadecimal(n as nat),
    decreases n,
{
    if n < 16 {
        digit_str(n).to_owned()
    } else {
        hexadecimal_string(n / 16).concat(digit_str(n % 16))
    }
}

/// The hyphenated text of a UUID.
///
/// Calls `uuid::Uuid::from_u128` and the `Display` of `uuid::Uuid`: the number
/// is taken as the UUID's sixteen bytes in big-endian order, and the text is
/// the hyphenated form in lower case.
#[verifier::external_body]
pub(crate) fn uuid_to_string(id: Uuid) -> (r: String)
    ensures
        r@ == uuid_text(id),
{
    uuid::Uuid::from_u128(id).to_string()
}

/// Whether a UUID has the version and variant bits of a random one.
pub open spec fn is_random_uuid(id: Uuid) -> bool {
    (id >> 76u128) & 0xf == 4 && (id >> 62u128) & 3 == 2
}

/// A random UUID.
///
/// Calls `uuid::Uuid::new_v4`: of the number it gives, only the version and
/// the variant are fixed.
#[verifier::external_body]
pub(crate) fn random_uuid() -> (r: Uuid)
    ensures
        is_random_uuid(r),
{
    uuid::Uuid::new_v4().as_u128()
}

/// The strings in order, with the separator between each two of them.
pub fn join_strings(list: &Vec<String>, separator: &str) -> (r: String)
    ensures
        r@ == join(texts(list@), separator@),
{
    let n: usize = list.len();
    if n == 0 {
        return String::new();
    }
    let mut out = list[0].clone();
    let mut i: usize = 1;
    assert(texts(list@).take(1) =~= seq![list@[0]@]);
    while i < n
        invariant
            1 <= i <= n,
            n == list.len(),
            out@ == join(texts(list@).take(i as int), separator@),
        decreases n - i,
    {
        out = out.concat(separator).concat(list[i].as_str());
        proof {
            let next = texts(list@).take(i + 1);
            assert(next.drop_last() =~= texts(list@).take(i as int));
            assert(next.last() == list@[i as int]@);
        }
        i = i + 1;
    }
    assert(texts(list@).take(n as int) =~= texts(list@));
    out
}

} // verus!
