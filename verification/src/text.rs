//! Text building: numbers in decimal, and pieces joined.
use vstd::prelude::*;
use vstd::string::*;

verus! {

/// The decimal digit of `d`, for `d` below ten.
pub open spec fn digit(d: nat) -> char {
    if d == 0 {
        '0'
    } else if d == 1 {
        '1'
    } else if d == 2 {
        '2'
    } else if d == 3 {
        '3'
    } else if d == 4 {
        '4'
    } else if d == 5 {
        '5'
    } else if d == 6 {
        '6'
    } else if d == 7 {
        '7'
    } else if d == 8 {
        '8'
    } else {
        '9'
    }
}

/// `n` in decimal, without leading zeros.
pub open spec fn decimal(n: nat) -> Seq<char>
    decreases n,
{
    if n < 10 {
        seq![digit(n)]
    } else {
        decimal(n / 10).push(digit(n % 10))
    }
}

/// The decimal digit of `d`.
fn digit_text(d: u64) -> (r: &'static str)
    requires
        d < 10,
    ensures
        r@ == seq![digit(d as nat)],
{
    proof {
        reveal_strlit("0");
        reveal_strlit("1");
        reveal_strlit("2");
        reveal_strlit("3");
        reveal_strlit("4");
        reveal_strlit("5");
        reveal_strlit("6");
        reveal_strlit("7");
        reveal_strlit("8");
        reveal_strlit("9");
    }
    if d == 0 {
        "0"
    } else if d == 1 {
        "1"
    } else if d == 2 {
        "2"
    } else if d == 3 {
        "3"
    } else if d == 4 {
        "4"
    } else if d == 5 {
        "5"
    } else if d == 6 {
        "6"
    } else if d == 7 {
        "7"
    } else if d == 8 {
        "8"
    } else {
        "9"
    }
}

/// Appends `n` in decimal.
pub fn push_decimal(out: &mut String, n: u64)
    ensures
        final(out)@ == old(out)@ + decimal(n as nat),
    decreases n,
{
    if n >= 10 {
        push_decimal(out, n / 10);
        out.append(digit_text(n % 10));
        assert(out@ =~= old(out)@ + decimal(n as nat));
    } else {
        out.append(digit_text(n));
    }
}

/// Bytes in decimal, with commas between them.
pub open spec fn byte_items(bytes: Seq<u8>) -> Seq<char>
    decreases bytes.len(),
{
    if bytes.len() == 0 {
        Seq::empty()
    } else if bytes.len() == 1 {
        decimal(bytes[0] as nat)
    } else {
        byte_items(bytes.drop_last()) + ", "@ + decimal(bytes.last() as nat)
    }
}

/// Bytes in decimal, as a list in brackets.
pub open spec fn byte_list(bytes: Seq<u8>) -> Seq<char> {
    "["@ + byte_items(bytes) + "]"@
}

/// Appends bytes in decimal, as a list in brackets.
pub fn push_byte_list(out: &mut String, bytes: &[u8])
    ensures
        final(out)@ == old(out)@ + byte_list(bytes@),
{
    out.append("[");
    let ghost opened = out@;
    for i in 0..bytes.len()
        invariant
            out@ =~= opened + byte_items(bytes@.take(i as int)),
    {
        let ghost next = bytes@.take(i + 1);
        if i > 0 {
            out.append(", ");
        }
        push_decimal(out, bytes[i] as u64);
        assert(next.drop_last() =~= bytes@.take(i as int));
        assert(next.last() == bytes@[i as int]);
    }
    assert(bytes@.take(bytes@.len() as int) =~= bytes@);
    out.append("]");
    assert(out@ =~= old(out)@ + byte_list(bytes@));
}

/// `a` and `b`, joined.
pub fn join2(a: &str, b: &str) -> (r: String)
    ensures
        r@ == a@ + b@,
{
    let mut out = String::from_str(a);
    out.append(b);
    out
}

/// A decimal numeral read back.
pub open spec fn value_of(digits: Seq<char>) -> int
    decreases digits.len(),
{
    if digits.len() == 0 {
        0
    } else {
        10 * value_of(digits.drop_last()) + (digits.last() as int - '0' as int)
    }
}

/// Whether every character is a decimal digit.
pub open spec fn all_digits(s: Seq<char>) -> bool {
    forall|i: int| 0 <= i < s.len() ==> '0' <= #[trigger] s[i] <= '9'
}

/// A numeral reads back as its number, is made of digits only and is not empty.
pub proof fn lemma_decimal(n: nat)
    ensures
        value_of(decimal(n)) == n,
        all_digits(decimal(n)),
        decimal(n).len() > 0,
    decreases n,
{
    reveal_with_fuel(value_of, 2);
    if n >= 10 {
        lemma_decimal(n / 10);
        assert(decimal(n).drop_last() =~= decimal(n / 10));
    } else {
        assert(decimal(n).drop_last() =~= Seq::empty());
    }
}

/// The characters of `s`.
pub fn chars_of(s: &str) -> (r: Vec<char>)
    ensures
        r@ == s@,
{
    let mut out: Vec<char> = Vec::new();
    for c in it: s.chars()
        invariant
            it.seq() == s@,
            out@ =~= s@.take(it.index() as int),
    {
        out.push(c);
    }
    assert(s@.take(s@.len() as int) =~= s@);
    out
}

/// Whether `part` stands in `s` at `i`.
pub open spec fn stands_in(s: Seq<char>, i: int, part: Seq<char>) -> bool {
    &&& 0 <= i
    &&& i + part.len() <= s.len()
    &&& s.subrange(i, i + part.len()) == part
}

/// Whether `part` stands anywhere in `s`.
pub open spec fn contains_text(s: Seq<char>, part: Seq<char>) -> bool {
    exists|i: int| #[trigger] stands_in(s, i, part)
}

/// Whether `part` stands in `s` at `i`.
pub fn stands_in_at(s: &Vec<char>, i: usize, part: &Vec<char>) -> (r: bool)
    requires
        i <= s@.len(),
    ensures
        r == stands_in(s@, i as int, part@),
        r <==> i + part@.len() <= s@.len() && forall|k: int|
            0 <= k < part@.len() ==> #[trigger] part@[k] == s@[i + k],
{
    if part.len() > s.len() - i {
        return false;
    }
    for k in 0..part.len()
        invariant
            i + part@.len() <= s@.len() <= usize::MAX,
            forall|j: int| 0 <= j < k ==> s@[i + j] == part@[j],
    {
        if s[i + k] != part[k] {
            assert(s@.subrange(i as int, i + part@.len())[k as int] == s@[i + k]);
            assert(part@[k as int] != s@[i + k]);
            return false;
        }
    }
    assert(s@.subrange(i as int, i + part@.len()) =~= part@);
    true
}

/// Whether `part` stands anywhere in `s`.
pub fn contains(s: &Vec<char>, part: &Vec<char>) -> (r: bool)
    ensures
        r == contains_text(s@, part@),
{
    if part.len() > s.len() {
        return false;
    }
    let last: usize = s.len() - part.len();
    let mut i: usize = 0;
    while i <= last
        invariant
            last + part@.len() == s@.len() <= usize::MAX,
            i <= last + 1,
            forall|j: int| 0 <= j < i ==> !#[trigger] stands_in(s@, j, part@),
        decreases last + 1 - i,
    {
        if stands_in_at(s, i, part) {
            return true;
        }
        if i == last {
            return false;
        }
        i = i + 1;
    }
    false
}

/// The value of digits that are joined: the first ones count ten times more for each that follows.
pub proof fn law_value_of_joined_digits(a: Seq<char>, b: Seq<char>)
    ensures
        value_of(a + b) == value_of(a) * vstd::arithmetic::power::pow(10, b.len()) + value_of(b),
    decreases b.len(),
{
    vstd::arithmetic::power::lemma_pow0(10);
    if b.len() == 0 {
        assert(a + b =~= a);
    } else {
        let n = (b.len() - 1) as nat;
        let rest = b.drop_last();
        law_value_of_joined_digits(a, rest);
        assert((a + b).drop_last() =~= a + rest);
        assert((a + b).last() == b.last());
        let p = vstd::arithmetic::power::pow(10, n);
        assert(vstd::arithmetic::power::pow(10, b.len()) == 10 * p) by {
            reveal(vstd::arithmetic::power::pow);
        }
        assert(10 * (value_of(a) * p + value_of(rest)) == value_of(a) * (10 * p) + 10 * value_of(
            rest,
        )) by (nonlinear_arith);
    }
}

/// A digit alone stands for its distance from `0`.
pub proof fn law_value_of_a_digit(c: char)
    ensures
        value_of(seq![c]) == c as int - '0' as int,
        value_of(Seq::<char>::empty()) == 0,
{
    reveal_with_fuel(value_of, 2);
    assert(seq![c].drop_last() =~= Seq::<char>::empty());
}

/// A number has one numeral: digits that do not start with a zero, unless there is but one of them,
/// and that have its value.
pub proof fn law_decimal_is_the_numeral(n: nat, s: Seq<char>)
    requires
        all_digits(s),
        s.len() > 0,
        s.len() > 1 ==> s[0] != '0',
        value_of(s) == n,
    ensures
        decimal(n) == s,
    decreases s.len(),
{
    let rest = s.drop_last();
    let c = s.last();
    assert('0' <= s[s.len() - 1] <= '9');
    let d = (c as int - '0' as int) as nat;
    assert(digit(d) == c);
    if rest.len() == 0 {
        assert(value_of(rest) == 0);
        assert(decimal(n) =~= s);
    } else {
        assert forall|i: int| 0 <= i < rest.len() implies '0' <= #[trigger] rest[i] <= '9' by {
            assert('0' <= s[i] <= '9');
        }
        assert(rest[0] == s[0]);
        lemma_value_is_not_negative(rest);
        if rest.len() == 1 {
            law_value_of_a_digit(rest[0]);
            assert(rest =~= seq![rest[0]]);
        } else {
            lemma_value_is_positive(rest);
        }
        let q = value_of(rest) as nat;
        law_decimal_is_the_numeral(q, rest);
        assert(n == 10 * q + d);
        assert(n / 10 == q && n % 10 == d);
        assert(q > 0);
        assert(decimal(n) =~= s);
    }
}

/// Digits have no negative value.
proof fn lemma_value_is_not_negative(s: Seq<char>)
    requires
        all_digits(s),
    ensures
        value_of(s) >= 0,
    decreases s.len(),
{
    if s.len() > 0 {
        assert forall|i: int| 0 <= i < s.len() - 1 implies '0' <= #[trigger] s.drop_last()[i]
            <= '9' by {
            assert('0' <= s[i] <= '9');
        }
        lemma_value_is_not_negative(s.drop_last());
        assert('0' <= s[s.len() - 1] <= '9');
    }
}

/// Digits that do not start with a zero have a positive value.
proof fn lemma_value_is_positive(s: Seq<char>)
    requires
        all_digits(s),
        s.len() > 0,
        s[0] != '0',
    ensures
        value_of(s) > 0,
    decreases s.len(),
{
    let rest = s.drop_last();
    assert('0' <= s[s.len() - 1] <= '9');
    if rest.len() > 0 {
        assert forall|i: int| 0 <= i < rest.len() implies '0' <= #[trigger] rest[i] <= '9' by {
            assert('0' <= s[i] <= '9');
        }
        lemma_value_is_positive(rest);
    } else {
        assert(s[s.len() - 1] == s[0]);
        assert(value_of(rest) == 0);
    }
}

/// A list of bytes is the list of the first ones, a comma and a blank, and the list of the others,
/// wherever it is parted; a list of one byte is its numeral, and the brackets stand round it all.
pub proof fn law_byte_list_joins(a: Seq<u8>, b: Seq<u8>, x: u8)
    requires
        a.len() > 0,
        b.len() > 0,
    ensures
        byte_items(a + b) == byte_items(a) + seq![',', ' '] + byte_items(b),
        byte_items(seq![x]) == decimal(x as nat),
        byte_list(a) == seq!['['] + byte_items(a) + seq![']'],
        byte_list(Seq::<u8>::empty()) == seq!['[', ']'],
    decreases b.len(),
{
    reveal_strlit(", ");
    reveal_strlit("[");
    reveal_strlit("]");
    assert(", "@ =~= seq![',', ' ']);
    assert("["@ =~= seq!['[']);
    assert("]"@ =~= seq![']']);
    assert(byte_list(Seq::<u8>::empty()) =~= seq!['[', ']']);
    assert((a + b).drop_last() =~= a + b.drop_last());
    if b.len() == 1 {
        assert(a + b.drop_last() =~= a);
    } else {
        law_byte_list_joins(a, b.drop_last(), x);
        assert(byte_items(a + b) =~= byte_items(a) + seq![',', ' '] + byte_items(b));
    }
}

/// A text that is put together with `part` in it contains `part`, and one that contains `part` can
/// be taken apart round it.
pub proof fn law_contained_text_can_be_cut_out(before: Seq<char>, part: Seq<char>, rest: Seq<char>, s: Seq<char>)
    ensures
        contains_text(before + part + rest, part),
        contains_text(s, part) ==> exists|i: int|
            0 <= i <= s.len() - part.len() && s == #[trigger] s.take(i) + part + s.skip(
                i + part.len(),
            ),
{
    let whole = before + part + rest;
    assert(whole.subrange(before.len() as int, before.len() as int + part.len()) =~= part);
    assert(stands_in(whole, before.len() as int, part));
    if contains_text(s, part) {
        let i = choose|i: int| #[trigger] stands_in(s, i, part);
        assert(s =~= s.take(i) + part + s.skip(i + part.len())) by {
            assert(s.subrange(i, i + part.len()) == part);
            assert forall|k: int| 0 <= k < part.len() implies s[i + k] == part[k] by {
                assert(s.subrange(i, i + part.len())[k] == s[i + k]);
            }
        }
    }
}

/// The pieces of `s` between the places where `c` stands: always one more than there are places.
pub open spec fn split(s: Seq<char>, c: char) -> Seq<Seq<char>>
    decreases s.len(),
{
    if s.len() == 0 {
        seq![Seq::empty()]
    } else {
        let before = split(s.drop_last(), c);
        if s.last() == c {
            before.push(Seq::empty())
        } else {
            before.drop_last().push(before.last().push(s.last()))
        }
    }
}

/// A text without `c` in it is one piece, and behind another text and a `c` it is one piece more.
pub proof fn lemma_split(a: Seq<char>, c: char, b: Seq<char>)
    requires
        forall|i: int| 0 <= i < b.len() ==> #[trigger] b[i] != c,
    ensures
        split(b, c) == seq![b],
        split(a + seq![c] + b, c) == split(a, c).push(b),
    decreases b.len(),
{
    let whole = a + seq![c] + b;
    if b.len() == 0 {
        assert(b =~= Seq::empty());
        assert(whole.drop_last() =~= a);
        assert(whole.last() == c);
    } else {
        let less = b.drop_last();
        assert forall|i: int| 0 <= i < less.len() implies #[trigger] less[i] != c by {
            assert(b[i] != c);
        }
        lemma_split(a, c, less);
        assert(whole.drop_last() =~= a + seq![c] + less);
        assert(whole.last() == b.last());
        assert(b[b.len() - 1] != c);
        assert(less.push(b.last()) =~= b);
        assert(split(b, c) =~= seq![b]);
        assert(split(a, c).push(less).drop_last() =~= split(a, c));
        assert(split(whole, c) =~= split(a, c).push(b));
    }
}

/// Texts, one behind the other, with `sep` between them.
pub open spec fn joined(pieces: Seq<Seq<char>>, sep: Seq<char>) -> Seq<char>
    decreases pieces.len(),
{
    if pieces.len() == 0 {
        Seq::empty()
    } else if pieces.len() == 1 {
        pieces[0]
    } else {
        pieces[0] + sep + joined(pieces.skip(1), sep)
    }
}

/// One text more, behind `sep`.
pub proof fn lemma_joined_push(pieces: Seq<Seq<char>>, sep: Seq<char>, last: Seq<char>)
    requires
        pieces.len() > 0,
    ensures
        joined(pieces.push(last), sep) == joined(pieces, sep) + sep + last,
        joined(seq![last], sep) == last,
    decreases pieces.len(),
{
    reveal_with_fuel(joined, 2);
    let more = pieces.push(last);
    if pieces.len() == 1 {
        assert(more.skip(1) =~= seq![last]);
    } else {
        lemma_joined_push(pieces.skip(1), sep, last);
        assert(more.skip(1) =~= pieces.skip(1).push(last));
        assert(joined(more, sep) =~= joined(pieces, sep) + sep + last);
    }
}

} // verus!
