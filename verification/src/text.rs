//! Joining, splitting and trimming of text, and decimal numerals.
use vstd::prelude::*;
use vstd::string::*;

verus! {

/// The parts written one after the other with `sep` between neighbours.
pub open spec fn joined(parts: Seq<Seq<char>>, sep: Seq<char>) -> Seq<char>
    decreases parts.len(),
{
    if parts.len() == 0 {
        Seq::empty()
    } else if parts.len() == 1 {
        parts[0]
    } else {
        parts[0] + sep + joined(parts.drop_first(), sep)
    }
}

/// The position of the first `x` in `s`, or the length of `s` if there is none.
pub open spec fn first_index<T>(s: Seq<T>, x: T) -> int
    decreases s.len(),
{
    if s.len() == 0 {
        0
    } else if s[0] == x {
        0
    } else {
        1 + first_index(s.drop_first(), x)
    }
}

/// The pieces of `text` between the occurrences of `sep`. There is always at
/// least one piece; a piece is empty where `sep` stands at either end of
/// `text` or next to another `sep`.
pub open spec fn split_on(text: Seq<char>, sep: char) -> Seq<Seq<char>>
    decreases text.len(),
{
    let i = first_index(text, sep);
    if 0 <= i < text.len() {
        seq![text.take(i)] + split_on(text.skip(i + 1), sep)
    } else {
        seq![text]
    }
}

/// `text` without every copy of `prefix` that it begins with.
pub open spec fn without_leading(text: Seq<char>, prefix: Seq<char>) -> Seq<char>
    decreases text.len(),
{
    if prefix.len() > 0 && prefix.is_prefix_of(text) {
        without_leading(text.skip(prefix.len() as int), prefix)
    } else {
        text
    }
}

pub open spec fn digit_char(d: int) -> char {
    if d == 0 {
        '0'
    } else if d == 1 {
        '1'
    } else if d == 2 {
        '2'
    } else if d == 3 {
        '3'
    } else if d == 4 {
        '4'
    } else if d == 5 {
        '5'
    } else if d == 6 {
        '6'
    } else if d == 7 {
        '7'
    } else if d == 8 {
        '8'
    } else {
        '9'
    }
}

/// The decimal digits of `n`, most significant first, without leading zeros.
pub open spec fn digits(n: nat) -> Seq<char>
    decreases n,
{
    if n < 10 {
        seq![digit_char(n as int)]
    } else {
        digits(n / 10).push(digit_char((n % 10) as int))
    }
}

/// The decimal numeral of `v`, with a leading `-` if it is negative.
pub open spec fn decimal(v: int) -> Seq<char> {
    if v < 0 {
        seq!['-'] + digits((-v) as nat)
    } else {
        digits(v as nat)
    }
}

/// Whether a character is a decimal digit.
pub open spec fn is_digit(c: char) -> bool {
    '0' <= c && c <= '9'
}

/// The value of a decimal digit.
pub open spec fn digit_value(c: char) -> nat {
    (c as u32 - '0' as u32) as nat
}

/// The number that a run of decimal digits denotes, most significant first.
pub open spec fn digits_value(text: Seq<char>) -> nat
    decreases text.len(),
{
    if text.len() == 0 {
        0
    } else {
        digits_value(text.drop_last()) * 10 + digit_value(text.last())
    }
}

/// The digits of a number are digits, and any number of leading ones of
/// them denote a number that is no greater; all of them denote the number.
pub proof fn lemma_digits(n: nat, k: int)
    requires
        0 <= k <= digits(n).len(),
    ensures
        digits(n).len() > 0,
        forall|j: int| 0 <= j < digits(n).len() ==> is_digit(#[trigger] digits(n)[j]),
        digits_value(digits(n).take(k)) <= n,
        digits_value(digits(n)) == n,
    decreases n,
{
    let all = digits(n);
    if n < 10 {
        assert(all =~= seq![digit_char(n as int)]);
        assert(is_digit(digit_char(n as int)) && digit_value(digit_char(n as int)) == n);
        assert(all.drop_last() =~= Seq::<char>::empty());
        assert(digits_value(all.drop_last()) == 0);
        if k == 0 {
            assert(all.take(0) =~= Seq::<char>::empty());
        } else {
            assert(all.take(k) =~= all);
        }
    } else {
        let front = digits(n / 10);
        let last = digit_char((n % 10) as int);
        assert(is_digit(last) && digit_value(last) == n % 10);
        lemma_digits(n / 10, front.len() as int);
        assert(all.drop_last() =~= front);
        assert(digits_value(all) == n);
        assert forall|j: int| 0 <= j < all.len() implies is_digit(#[trigger] all[j]) by {
            if j < front.len() {
                assert(all[j] == front[j]);
            }
        }
        if k == all.len() {
            assert(all.take(k) =~= all);
        } else {
            lemma_digits(n / 10, k);
            assert(all.take(k) =~= front.take(k));
        }
    }
}

pub proof fn lemma_first_index_bounds<T>(s: Seq<T>, x: T)
    ensures
        0 <= first_index(s, x) <= s.len(),
        first_index(s, x) < s.len() ==> s[first_index(s, x)] == x,
        forall|j: int| 0 <= j < first_index(s, x) ==> s[j] != x,
    decreases s.len(),
{
    if s.len() > 0 && s[0] != x {
        lemma_first_index_bounds(s.drop_first(), x);
        let k = first_index(s.drop_first(), x);
        assert forall|j: int| 0 <= j < 1 + k implies s[j] != x by {
            if j > 0 {
                assert(s.drop_first()[j - 1] == s[j]);
            }
        }
    }
}

/// `first_index` is the one position that holds `x` and has no `x` before it.
pub proof fn lemma_first_index_is<T>(s: Seq<T>, x: T, k: int)
    requires
        0 <= k <= s.len(),
        forall|j: int| 0 <= j < k ==> s[j] != x,
        k < s.len() ==> s[k] == x,
    ensures
        first_index(s, x) == k,
{
    lemma_first_index_bounds(s, x);
    let f = first_index(s, x);
    if f < k {
        assert(s[f] == x);
    } else if k < f {
        assert(s[k] == x);
    }
}

pub proof fn lemma_joined_push(parts: Seq<Seq<char>>, sep: Seq<char>, last: Seq<char>)
    requires
        parts.len() > 0,
    ensures
        joined(parts.push(last), sep) == joined(parts, sep) + sep + last,
    decreases parts.len(),
{
    let longer = parts.push(last);
    assert(longer[0] == parts[0]);
    if parts.len() == 1 {
        assert(longer.drop_first() =~= seq![last]);
        assert(joined(longer.drop_first(), sep) == last);
    } else {
        lemma_joined_push(parts.drop_first(), sep, last);
        assert(longer.drop_first() =~= parts.drop_first().push(last));
        assert(parts[0] + sep + (joined(parts.drop_first(), sep) + sep + last) =~= parts[0] + sep
            + joined(parts.drop_first(), sep) + sep + last);
    }
}

/// Joining puts a separator between the parts and nowhere else, so splitting
/// at the separator gives the parts back, as long as no part holds it.
pub proof fn lemma_split_joined(parts: Seq<Seq<char>>, sep: char)
    requires
        parts.len() > 0,
        forall|i: int| 0 <= i < parts.len() ==> !(#[trigger] parts[i]).contains(sep),
    ensures
        split_on(joined(parts, seq![sep]), sep) == parts,
    decreases parts.len(),
{
    let text = joined(parts, seq![sep]);
    let head = parts[0];
    assert(!head.contains(sep));
    if parts.len() == 1 {
        assert forall|j: int| 0 <= j < head.len() implies head[j] != sep by {
            if head[j] == sep {
                assert(head.contains(sep));
            }
        }
        lemma_first_index_is(head, sep, head.len() as int);
        assert(parts =~= seq![head]);
    } else {
        let rest = parts.drop_first();
        assert forall|i: int| 0 <= i < rest.len() implies !(#[trigger] rest[i]).contains(sep) by {
            assert(rest[i] == parts[i + 1]);
        }
        lemma_split_joined(rest, sep);
        let tail = joined(rest, seq![sep]);
        assert(text == head + seq![sep] + tail);
        assert forall|j: int| 0 <= j < head.len() implies text[j] != sep by {
            if head[j] == sep {
                assert(head.contains(sep));
            }
        }
        assert(text[head.len() as int] == sep);
        lemma_first_index_is(text, sep, head.len() as int);
        assert(text.take(head.len() as int) =~= head);
        assert(text.skip(head.len() as int + 1) =~= tail);
        assert(seq![head] + rest =~= parts);
    }
}

/// The characters of `text`, in order.
pub fn chars_of(text: &str) -> (chars: Vec<char>)
    ensures
        chars@ == text@,
{
    let mut chars: Vec<char> = Vec::new();
    for c in it: text.chars()
        invariant
            chars@ == it.seq().take(it.index() as int),
            it.seq() == text@,
    {
        chars.push(c);
    }
    chars
}

/// Whether two pieces of text hold the same characters.
pub fn same_text(a: &str, b: &str) -> (same: bool)
    ensures
        same == (a@ == b@),
{
    String::from_str(a) == String::from_str(b)
}

/// Writes the parts one after the other with `sep` between neighbours.
pub fn join(parts: &Vec<String>, sep: &str) -> (text: String)
    ensures
        text@ == joined(parts.deep_view(), sep@),
{
    let mut text = String::new();
    let mut i: usize = 0;
    while i < parts.len()
        invariant
            i <= parts.len(),
            text@ == joined(parts.deep_view().take(i as int), sep@),
        decreases parts.len() - i,
    {
        proof {
            let done = parts.deep_view().take(i as int);
            assert(parts.deep_view().take(i + 1) =~= done.push(parts[i as int]@));
            if i > 0 {
                lemma_joined_push(done, sep@, parts[i as int]@);
            } else {
                assert(Seq::<char>::empty() + parts[0]@ =~= parts[0]@);
            }
        }
        if i > 0 {
            text.append(sep);
        }
        text.append(parts[i].as_str());
        i = i + 1;
    }
    assert(parts.deep_view().take(parts.len() as int) =~= parts.deep_view());
    text
}

/// Cuts `text` at every `sep`.
pub fn split(text: &str, sep: char) -> (parts: Vec<String>)
    ensures
        parts.deep_view() == split_on(text@, sep),
        parts.len() > 0,
{
    let chars = chars_of(text);
    let n = chars.len();
    let mut parts: Vec<String> = Vec::new();
    let mut start: usize = 0;
    let mut i: usize = 0;
    assert(text@.skip(0) =~= text@);
    assert(parts.deep_view() + split_on(text@, sep) =~= split_on(text@, sep));
    while i < n
        invariant
            n == text@.len(),
            chars@ == text@,
            start <= i <= n,
            forall|j: int| start <= j < i ==> text@[j] != sep,
            parts.deep_view() + split_on(text@.skip(start as int), sep) == split_on(text@, sep),
        decreases n - i,
    {
        if chars[i] == sep {
            let piece = String::from_str(text.substring_char(start, i));
            proof {
                let rest = text@.skip(start as int);
                lemma_first_index_is(rest, sep, i - start);
                assert(rest.take(i - start) =~= piece@);
                assert(rest.skip(i - start + 1) =~= text@.skip(i + 1));
                assert(parts.deep_view().push(piece@) + split_on(text@.skip(i + 1), sep)
                    =~= parts.deep_view() + split_on(rest, sep));
            }
            let ghost before = parts.deep_view();
            parts.push(piece);
            assert(parts.deep_view() =~= before.push(piece@));
            start = i + 1;
        }
        i = i + 1;
    }
    let piece = String::from_str(text.substring_char(start, n));
    proof {
        let rest = text@.skip(start as int);
        lemma_first_index_is(rest, sep, n - start);
        assert(rest =~= piece@);
        assert(parts.deep_view().push(piece@) =~= parts.deep_view() + split_on(rest, sep));
    }
    let ghost before = parts.deep_view();
    parts.push(piece);
    assert(parts.deep_view() =~= before.push(piece@));
    parts
}

/// Drops every copy of `prefix` that `text` begins with.
pub fn trim_start_matches(text: &str, prefix: &str) -> (rest: String)
    ensures
        rest@ == without_leading(text@, prefix@),
{
    let chars = chars_of(text);
    let lead = chars_of(prefix);
    let n = chars.len();
    let p = lead.len();
    let mut start: usize = 0;
    assert(text@.skip(0) =~= text@);
    if p > 0 {
        loop
            invariant_except_break
                start <= n,
                without_leading(text@.skip(start as int), prefix@) == without_leading(
                    text@,
                    prefix@,
                ),
            invariant
                n == text@.len(),
                p == prefix@.len(),
                p > 0,
                chars@ == text@,
                lead@ == prefix@,
            ensures
                start <= n,
                text@.skip(start as int) == without_leading(text@, prefix@),
            decreases n - start,
        {
            let ghost rest = text@.skip(start as int);
            if n - start < p {
                assert(!prefix@.is_prefix_of(rest));
                break ;
            }
            let mut k: usize = 0;
            while k < p && chars[start + k] == lead[k]
                invariant
                    k <= p,
                    start + p <= n,
                    n == text@.len(),
                    p == prefix@.len(),
                    chars@ == text@,
                    lead@ == prefix@,
                    forall|j: int| 0 <= j < k ==> text@[start + j] == prefix@[j],
                decreases p - k,
            {
                k = k + 1;
            }
            if k < p {
                assert(rest[k as int] != prefix@[k as int]);
                assert(!prefix@.is_prefix_of(rest)) by {
                    if prefix@.is_prefix_of(rest) {
                        assert(rest.subrange(0, p as int)[k as int] == prefix@[k as int]);
                    }
                }
                break ;
            }
            assert(prefix@.is_prefix_of(rest)) by {
                assert(rest.subrange(0, p as int) =~= prefix@);
            }
            assert(rest.skip(p as int) =~= text@.skip(start + p));
            start = start + p;
        }
    }
    let rest = String::from_str(text.substring_char(start, n));
    assert(rest@ =~= text@.skip(start as int));
    rest
}

fn digit_text(d: u8) -> (text: &'static str)
    requires
        d < 10,
    ensures
        text@ == seq![digit_char(d as int)],
{
    proof {
        reveal_strlit("0");
        reveal_strlit("1");
        reveal_strlit("2");
        reveal_strlit("3");
        reveal_strlit("4");
        reveal_strlit("5");
        reveal_strlit("6");
        reveal_strlit("7");
        reveal_strlit("8");
        reveal_strlit("9");
    }
    let text = if d == 0 {
        "0"
    } else if d == 1 {
        "1"
    } else if d == 2 {
        "2"
    } else if d == 3 {
        "3"
    } else if d == 4 {
        "4"
    } else if d == 5 {
        "5"
    } else if d == 6 {
        "6"
    } else if d == 7 {
        "7"
    } else if d == 8 {
        "8"
    } else {
        "9"
    };
    assert(text@ =~= seq![digit_char(d as int)]);
    text
}

/// Writes `v` as a decimal numeral.
pub fn decimal_string(v: i64) -> (text: String)
    ensures
        text@ == decimal(v as int),
{
    let wide: i128 = v as i128;
    let size: u128 = if wide < 0 {
        (-wide) as u128
    } else {
        wide as u128
    };
    let mut left: u128 = size / 10;
    let mut text = String::from_str(digit_text((size % 10) as u8));
    while left > 0
        invariant
            left > 0 ==> digits(size as nat) == digits(left as nat) + text@,
            left == 0 ==> digits(size as nat) == text@,
        decreases left,
    {
        let d = (left % 10) as u8;
        let ghost shorter = text@;
        text = String::from_str(digit_text(d)).concat(text.as_str());
        proof {
            if left >= 10 {
                assert(digits((left / 10) as nat).push(digit_char(d as int)) + shorter =~= digits(
                    (left / 10) as nat,
                ) + text@);
            }
        }
        left = left / 10;
    }
    if wide < 0 {
        proof {
            reveal_strlit("-");
            assert("-"@ =~= seq!['-']);
        }
        String::from_str("-").concat(text.as_str())
    } else {
        text
    }
}

/// Calls `itertools::Itertools::intersperse` on the parts and collects what
/// it yields into one string. The adaptor puts a clone of `sep` between each
/// two neighbouring items and nothing before the first or after the last, so
/// the collected text is the parts joined by `sep`.
#[verifier::external_body]
pub(crate) fn interspersed(parts: &Vec<String>, sep: &str) -> (text: String)
    ensures
        text@ == joined(parts.deep_view(), sep@),
{
    itertools::Itertools::intersperse(parts.iter().map(|part| part.as_str()), sep).collect()
}

} // verus!
