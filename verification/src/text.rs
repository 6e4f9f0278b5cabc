//! Text primitives. Every contract here speaks of a string as the sequence of its characters.
use vstd::prelude::*;
use vstd::string::{StrSliceExecFns, StringExecFns};

verus! {

/// The texts that a list of strings holds.
pub open spec fn strings(v: Seq<String>) -> Seq<Seq<char>> {
    Seq::new(v.len(), |i: int| v[i]@)
}

/// The position of the first `c` in `s`, or the length of `s` if there is none.
pub open spec fn find(s: Seq<char>, c: char) -> int
    decreases s.len(),
{
    if s.len() == 0 || s[0] == c {
        0
    } else {
        1 + find(s.drop_first(), c)
    }
}

/// The parts of `s` between the separators.
pub open spec fn split_text(s: Seq<char>, sep: char) -> Seq<Seq<char>>
    decreases s.len(),
{
    let i = find(s, sep);
    if 0 <= i < s.len() {
        seq![s.take(i)] + split_text(s.skip(i + 1), sep)
    } else {
        seq![s]
    }
}

/// The parts of a list, one after the other, with `sep` between two of them.
pub open spec fn join_text(parts: Seq<Seq<char>>, sep: Seq<char>) -> Seq<char>
    decreases parts.len(),
{
    if parts.len() == 0 {
        Seq::empty()
    } else if parts.len() == 1 {
        parts[0]
    } else {
        parts[0] + sep + join_text(parts.drop_first(), sep)
    }
}

/// The characters that Unicode gives the property `White_Space`.
pub open spec fn whitespace(c: char) -> bool {
    let n = c as int;
    ||| 0x09 <= n <= 0x0d
    ||| n == 0x20
    ||| n == 0x85
    ||| n == 0xa0
    ||| n == 0x1680
    ||| 0x2000 <= n <= 0x200a
    ||| n == 0x2028
    ||| n == 0x2029
    ||| n == 0x202f
    ||| n == 0x205f
    ||| n == 0x3000
}

/// `s` without its leading whitespace.
pub open spec fn trim_start_text(s: Seq<char>) -> Seq<char>
    decreases s.len(),
{
    if s.len() > 0 && whitespace(s[0]) {
        trim_start_text(s.drop_first())
    } else {
        s
    }
}

/// `s` without its trailing whitespace.
pub open spec fn trim_end_text(s: Seq<char>) -> Seq<char>
    decreases s.len(),
{
    if s.len() > 0 && whitespace(s.last()) {
        trim_end_text(s.drop_last())
    } else {
        s
    }
}

/// `s` without the whitespace at both ends.
pub open spec fn trim_text(s: Seq<char>) -> Seq<char> {
    trim_end_text(trim_start_text(s))
}

/// The digit character of a number below ten.
pub open spec fn digit_char(d: nat) -> char {
    (48 + d) as char
}

/// A number in decimal notation, without leading zeros.
pub open spec fn decimal_text(n: nat) -> Seq<char>
    decreases n,
{
    if n < 10 {
        seq![digit_char(n)]
    } else {
        decimal_text(n / 10).push(digit_char(n % 10))
    }
}

/// Whether every character of `s` is a decimal digit.
pub open spec fn all_digits(s: Seq<char>) -> bool {
    forall|i: int| 0 <= i < s.len() ==> 48 <= #[trigger] s[i] as int <= 57
}

/// The number that a sequence of digits denotes.
pub open spec fn number_of(s: Seq<char>) -> nat
    decreases s.len(),
{
    if s.len() == 0 {
        0
    } else {
        number_of(s.drop_last()) * 10 + (s.last() as int - 48) as nat
    }
}

/// The digits of a number that may carry a plus sign in front.
pub open spec fn unsigned_digits(s: Seq<char>) -> Seq<char> {
    if s.len() > 0 && s[0] == '+' {
        s.drop_first()
    } else {
        s
    }
}

/// The byte that a text denotes: digits, with or without one plus sign in front of them, whose
/// value is below 256.
pub open spec fn byte_of(s: Seq<char>) -> Option<u8> {
    let digits = unsigned_digits(s);
    if digits.len() > 0 && all_digits(digits) && number_of(digits) <= 255 {
        Some(number_of(digits) as u8)
    } else {
        None
    }
}

/// The lower-case form of an ASCII letter; any other character is its own.
pub open spec fn lower(c: char) -> char {
    if 65 <= c as int <= 90 {
        (c as int + 32) as char
    } else {
        c
    }
}

/// `s` with its ASCII letters in lower case.
pub open spec fn lower_text(s: Seq<char>) -> Seq<char> {
    Seq::new(s.len(), |i: int| lower(s[i]))
}

/// The order of texts: the first differing character decides, and a prefix comes first.
pub open spec fn text_before(a: Seq<char>, b: Seq<char>) -> bool
    decreases a.len(),
{
    if b.len() == 0 {
        false
    } else if a.len() == 0 {
        true
    } else if a[0] == b[0] {
        text_before(a.drop_first(), b.drop_first())
    } else {
        (a[0] as int) < (b[0] as int)
    }
}

/// Whether a list of texts is in order, with no text twice.
pub open spec fn ordered(v: Seq<Seq<char>>) -> bool {
    forall|i: int, j: int| 0 <= i < j < v.len() ==> text_before(#[trigger] v[i], #[trigger] v[j])
}

pub proof fn lemma_find(s: Seq<char>, c: char)
    ensures
        0 <= find(s, c) <= s.len(),
        forall|j: int| 0 <= j < find(s, c) ==> s[j] != c,
        find(s, c) < s.len() ==> s[find(s, c)] == c,
    decreases s.len(),
{
    if s.len() > 0 && s[0] != c {
        lemma_find(s.drop_first(), c);
        assert forall|j: int| 0 <= j < find(s, c) implies s[j] != c by {
            if j > 0 {
                assert(s[j] == s.drop_first()[j - 1]);
            }
        }
    }
}

/// The first position of `c` is the one that has no `c` before it.
pub proof fn lemma_find_is(s: Seq<char>, c: char, i: int)
    requires
        0 <= i <= s.len(),
        forall|j: int| 0 <= j < i ==> s[j] != c,
        i < s.len() ==> s[i] == c,
    ensures
        find(s, c) == i,
{
    lemma_find(s, c);
    let k = find(s, c);
    if k < i {
        assert(s[k] != c);
    } else if i < k {
        assert(s[i] != c);
    }
}

/// Joining parts that do not hold the separator and splitting the result gives the parts back.
pub proof fn split_undoes_join(parts: Seq<Seq<char>>, sep: char)
    requires
        parts.len() > 0,
        forall|i: int| 0 <= i < parts.len() ==> !(#[trigger] parts[i]).contains(sep),
    ensures
        split_text(join_text(parts, seq![sep]), sep) == parts,
    decreases parts.len(),
{
    let s = join_text(parts, seq![sep]);
    let head = parts[0];
    assert(!head.contains(sep));
    if parts.len() == 1 {
        assert(s == head);
        assert forall|j: int| 0 <= j < s.len() implies s[j] != sep by {
            assert(head.contains(head[j]));
        }
        lemma_find_is(s, sep, s.len() as int);
        assert(split_text(s, sep) == seq![s]);
        assert(seq![s] =~= parts);
    } else {
        let rest = parts.drop_first();
        assert forall|i: int| 0 <= i < rest.len() implies !(#[trigger] rest[i]).contains(sep) by {
            assert(rest[i] == parts[i + 1]);
        }
        split_undoes_join(rest, sep);
        let tail = join_text(rest, seq![sep]);
        assert(s == head + seq![sep] + tail);
        assert forall|j: int| 0 <= j < head.len() implies s[j] != sep by {
            assert(head.contains(head[j]));
            assert(s[j] == head[j]);
        }
        assert(s[head.len() as int] == sep);
        lemma_find_is(s, sep, head.len() as int);
        assert(s.take(head.len() as int) =~= head);
        assert(s.skip(head.len() as int + 1) =~= tail);
        assert(split_text(s, sep) == seq![head] + split_text(tail, sep));
        assert(seq![head] + rest =~= parts);
    }
}

/// Splitting a text and joining the parts gives the text back.
pub proof fn join_undoes_split(s: Seq<char>, sep: char)
    ensures
        join_text(split_text(s, sep), seq![sep]) == s,
        split_text(s, sep).len() > 0,
    decreases s.len(),
{
    lemma_find(s, sep);
    let i = find(s, sep);
    if i < s.len() {
        let tail = s.skip(i + 1);
        join_undoes_split(tail, sep);
        let parts = split_text(s, sep);
        assert(parts.drop_first() =~= split_text(tail, sep));
        assert(s =~= s.take(i) + seq![sep] + tail);
    }
}

/// A byte written in decimal reads back as itself.
pub proof fn byte_of_decimal(n: u8)
    ensures
        byte_of(decimal_text(n as nat)) == Some(n),
{
    lemma_decimal(n as nat);
    let s = decimal_text(n as nat);
    assert(48 <= s[0] as int <= 57);
}

pub proof fn lemma_decimal(n: nat)
    ensures
        decimal_text(n).len() > 0,
        all_digits(decimal_text(n)),
        number_of(decimal_text(n)) == n,
    decreases n,
{
    reveal_with_fuel(number_of, 2);
    if n < 10 {
        let s = decimal_text(n);
        assert(s.drop_last() =~= Seq::empty());
    } else {
        lemma_decimal(n / 10);
        let s = decimal_text(n);
        assert(s.drop_last() =~= decimal_text(n / 10));
    }
}


/// No text comes before itself.
pub proof fn text_before_irreflexive(a: Seq<char>)
    ensures
        !text_before(a, a),
    decreases a.len(),
{
    if a.len() > 0 {
        text_before_irreflexive(a.drop_first());
    }
}

/// The order of texts is transitive.
pub proof fn text_before_transitive(a: Seq<char>, b: Seq<char>, c: Seq<char>)
    requires
        text_before(a, b),
        text_before(b, c),
    ensures
        text_before(a, c),
    decreases a.len(),
{
    if a.len() > 0 && a[0] == b[0] && b[0] == c[0] {
        text_before_transitive(a.drop_first(), b.drop_first(), c.drop_first());
    }
}

/// Of two different texts one comes before the other.
pub proof fn text_before_total(a: Seq<char>, b: Seq<char>)
    ensures
        a == b || text_before(a, b) || text_before(b, a),
    decreases a.len(),
{
    if a.len() == 0 && b.len() == 0 {
        assert(a =~= b);
    } else if a.len() > 0 && b.len() > 0 && a[0] == b[0] {
        text_before_total(a.drop_first(), b.drop_first());
        if a.drop_first() == b.drop_first() {
            assert(a =~= seq![a[0]] + a.drop_first());
            assert(b =~= seq![b[0]] + b.drop_first());
        }
    }
}

/// Two ordered lists that hold the same texts are equal.
pub proof fn ordered_is_unique(a: Seq<Seq<char>>, b: Seq<Seq<char>>)
    requires
        ordered(a),
        ordered(b),
        forall|t: Seq<char>| a.contains(t) <==> b.contains(t),
    ensures
        a == b,
    decreases a.len(),
{
    if a.len() == 0 {
        if b.len() > 0 {
            assert(b.contains(b[0]));
        }
        assert(a =~= b);
    } else {
        assert(a.contains(a.last()));
        assert(b.contains(a.last()));
        assert(b.contains(b.last()));
        assert(a.contains(b.last()));
        let j = choose|j: int| 0 <= j < b.len() && b[j] == a.last();
        let i = choose|i: int| 0 <= i < a.len() && a[i] == b.last();
        if a.last() != b.last() {
            assert(text_before(b[j], b[b.len() - 1]));
            assert(text_before(a[i], a[a.len() - 1]));
            text_before_transitive(a.last(), b.last(), a.last());
            text_before_irreflexive(a.last());
        }
        let a1 = a.drop_last();
        let b1 = b.drop_last();
        assert forall|t: Seq<char>| a1.contains(t) <==> b1.contains(t) by {
            lemma_drop_last_contains(a, t);
            lemma_drop_last_contains(b, t);
        }
        ordered_is_unique(a1, b1);
        assert(a =~= a1.push(a.last()));
        assert(b =~= b1.push(b.last()));
    }
}

proof fn lemma_drop_last_contains(a: Seq<Seq<char>>, t: Seq<char>)
    requires
        ordered(a),
        a.len() > 0,
    ensures
        a.drop_last().contains(t) <==> a.contains(t) && t != a.last(),
{
    if a.drop_last().contains(t) {
        let i = choose|i: int| 0 <= i < a.drop_last().len() && a.drop_last()[i] == t;
        assert(a[i] == t);
        assert(text_before(a[i], a[a.len() - 1]));
        text_before_irreflexive(t);
    }
    if a.contains(t) && t != a.last() {
        let i = choose|i: int| 0 <= i < a.len() && a[i] == t;
        assert(a.drop_last()[i] == t);
    }
}

/// The characters of a string, in order.
pub fn chars_of(s: &str) -> (r: Vec<char>)
    ensures
        r@ == s@,
{
    let mut r: Vec<char> = Vec::new();
    for c in it: s.chars()
        invariant
            r@ == s@.take(it.index()),
            it.seq() == s@,
    {
        proof {
            assert(s@.take(it.index() + 1) == s@.take(it.index()).push(s@[it.index()]));
        }
        r.push(c);
    }
    proof {
        assert(s@.take(s@.len() as int) == s@);
    }
    r
}

/// Whether two strings hold the same text.
pub fn same_text(a: &str, b: &str) -> (r: bool)
    ensures
        r == (a@ == b@),
{
    let x = chars_of(a);
    let y = chars_of(b);
    if x.len() != y.len() {
        return false;
    }
    let mut i: usize = 0;
    while i < x.len()
        invariant
            x@ == a@,
            y@ == b@,
            x.len() == y.len(),
            i <= x.len(),
            forall|j: int| 0 <= j < i ==> x@[j] == y@[j],
        decreases x.len() - i,
    {
        if x[i] != y[i] {
            return false;
        }
        i = i + 1;
    }
    assert(a@ =~= b@);
    true
}

/// Whether `s` begins with `prefix`.
pub fn starts_with(s: &str, prefix: &str) -> (r: bool)
    ensures
        r == prefix@.is_prefix_of(s@),
{
    let x = chars_of(s);
    let p = chars_of(prefix);
    if p.len() > x.len() {
        return false;
    }
    let mut i: usize = 0;
    while i < p.len()
        invariant
            x@ == s@,
            p@ == prefix@,
            p.len() <= x.len(),
            i <= p.len(),
            forall|j: int| 0 <= j < i ==> x@[j] == p@[j],
        decreases p.len() - i,
    {
        if x[i] != p[i] {
            assert(s@.subrange(0, p@.len() as int)[i as int] == x@[i as int]);
            return false;
        }
        i = i + 1;
    }
    assert(prefix@ =~= s@.subrange(0, prefix@.len() as int));
    true
}

/// What follows `prefix` in `s`, if `s` begins with it.
pub fn strip_prefix(s: &str, prefix: &str) -> (r: Option<String>)
    ensures
        r is Some <==> prefix@.is_prefix_of(s@),
        r matches Some(t) ==> t@ == s@.skip(prefix@.len() as int),
{
    if starts_with(s, prefix) {
        let n = s.unicode_len();
        let k = prefix.unicode_len();
        let rest = s.substring_char(k, n);
        assert(rest@ =~= s@.skip(prefix@.len() as int));
        Some(rest.to_owned())
    } else {
        None
    }
}

/// Whether `s` ends with `suffix`.
pub fn ends_with(s: &str, suffix: &str) -> (r: bool)
    ensures
        r == suffix@.is_suffix_of(s@),
{
    let n = s.unicode_len();
    let k = suffix.unicode_len();
    if k > n {
        return false;
    }
    let tail = s.substring_char(n - k, n);
    same_text(tail, suffix)
}

fn code_point(c: char) -> (r: u32)
    ensures
        r == c as int,
{
    c as u32
}

fn is_whitespace(c: char) -> (r: bool)
    ensures
        r == whitespace(c),
{
    let n: u32 = c as u32;
    (0x09 <= n && n <= 0x0d) || n == 0x20 || n == 0x85 || n == 0xa0 || n == 0x1680 || (0x2000 <= n
        && n <= 0x200a) || n == 0x2028 || n == 0x2029 || n == 0x202f || n == 0x205f || n == 0x3000
}

/// `s` without its trailing whitespace.
pub fn trim_end(s: &str) -> (r: String)
    ensures
        r@ == trim_end_text(s@),
{
    let x = chars_of(s);
    let mut n: usize = x.len();
    assert(s@.take(n as int) =~= s@);
    while n > 0 && is_whitespace(x[n - 1])
        invariant
            x@ == s@,
            n <= x.len(),
            trim_end_text(s@) == trim_end_text(s@.take(n as int)),
        decreases n,
    {
        assert(s@.take(n as int).drop_last() =~= s@.take(n - 1));
        n = n - 1;
    }
    assert(n > 0 ==> s@.take(n as int).last() == s@[n - 1]);
    let kept = s.substring_char(0, n);
    assert(kept@ =~= s@.take(n as int));
    kept.to_owned()
}

/// `s` without the whitespace at both ends.
pub fn trim(s: &str) -> (r: String)
    ensures
        r@ == trim_text(s@),
{
    let x = chars_of(s);
    let mut i: usize = 0;
    assert(s@.skip(0) =~= s@);
    while i < x.len() && is_whitespace(x[i])
        invariant
            x@ == s@,
            i <= x.len(),
            trim_start_text(s@) == trim_start_text(s@.skip(i as int)),
        decreases x.len() - i,
    {
        assert(s@.skip(i as int)[0] == s@[i as int]);
        assert(s@.skip(i as int).drop_first() =~= s@.skip(i + 1));
        i = i + 1;
    }
    assert(i < x.len() ==> s@.skip(i as int)[0] == s@[i as int]);
    let rest = s.substring_char(i, x.len());
    assert(rest@ =~= s@.skip(i as int));
    trim_end(rest)
}

/// The parts of `s` between the separators.
pub fn split(s: &str, sep: char) -> (r: Vec<String>)
    ensures
        strings(r@) == split_text(s@, sep),
{
    let x = chars_of(s);
    let mut parts: Vec<String> = Vec::new();
    let mut start: usize = 0;
    let mut i: usize = 0;
    assert(s@.skip(0) =~= s@);
    assert(strings(parts@) + split_text(s@, sep) =~= split_text(s@, sep));
    while i < x.len()
        invariant
            x@ == s@,
            start <= i <= x.len(),
            forall|j: int| start <= j < i ==> x@[j] != sep,
            strings(parts@) + split_text(s@.skip(start as int), sep) == split_text(s@, sep),
        decreases x.len() - i,
    {
        if x[i] == sep {
            let part = s.substring_char(start, i);
            let ghost before = strings(parts@);
            let ghost rest = s@.skip(start as int);
            proof {
                assert forall|j: int| 0 <= j < i - start implies rest[j] != sep by {
                    assert(rest[j] == x@[start + j]);
                }
                lemma_find_is(rest, sep, i - start);
                assert(rest.take(i - start) =~= part@);
                assert(rest.skip(i - start + 1) =~= s@.skip(i + 1));
            }
            parts.push(part.to_owned());
            assert(strings(parts@) =~= before.push(part@));
            assert(before + (seq![part@] + split_text(s@.skip(i + 1), sep)) =~= before.push(part@)
                + split_text(s@.skip(i + 1), sep));
            start = i + 1;
        }
        i = i + 1;
    }
    let part = s.substring_char(start, x.len());
    let ghost rest = s@.skip(start as int);
    proof {
        assert(rest =~= part@);
        assert forall|j: int| 0 <= j < rest.len() implies rest[j] != sep by {
            assert(rest[j] == x@[start + j]);
        }
        lemma_find_is(rest, sep, rest.len() as int);
    }
    let ghost before = strings(parts@);
    parts.push(part.to_owned());
    assert(strings(parts@) =~= before.push(part@));
    assert(before + seq![part@] =~= before.push(part@));
    parts
}

/// The parts of a list, one after the other, with `sep` between two of them.
pub fn join(parts: &Vec<String>, sep: &str) -> (r: String)
    ensures
        r@ == join_text(strings(parts@), sep@),
{
    let mut r = String::new();
    let ghost all = strings(parts@);
    if parts.len() == 0 {
        return r;
    }
    let mut i: usize = parts.len() - 1;
    r.append(parts[i].as_str());
    assert(all.skip(i as int) =~= seq![all[i as int]]);
    assert(r@ =~= all[i as int]);
    while i > 0
        invariant
            all == strings(parts@),
            i < parts.len(),
            r@ == join_text(all.skip(i as int), sep@),
        decreases i,
    {
        let ghost tail = r@;
        i = i - 1;
        let mut next = parts[i].clone();
        next.append(sep);
        next.append(r.as_str());
        proof {
            assert(all.skip(i as int).drop_first() =~= all.skip(i + 1));
            assert(all.skip(i as int)[0] == parts@[i as int]@);
        }
        r = next;
    }
    assert(all.skip(0) =~= all);
    r
}

fn digit_text(d: u64) -> (r: &'static str)
    requires
        d < 10,
    ensures
        r@ == seq![digit_char(d as nat)],
{
    proof {
        reveal_strlit("0");
        reveal_strlit("1");
        reveal_strlit("2");
        reveal_strlit("3");
        reveal_strlit("4");
        reveal_strlit("5");
        reveal_strlit("6");
        reveal_strlit("7");
        reveal_strlit("8");
        reveal_strlit("9");
    }
    let r = match d {
        0 => "0",
        1 => "1",
        2 => "2",
        3 => "3",
        4 => "4",
        5 => "5",
        6 => "6",
        7 => "7",
        8 => "8",
        _ => "9",
    };
    assert(r@ =~= seq![digit_char(d as nat)]);
    r
}

/// A number in decimal notation.
pub fn decimal(n: u64) -> (r: String)
    ensures
        r@ == decimal_text(n as nat),
    decreases n,
{
    let mut r = if n < 10 {
        String::new()
    } else {
        decimal(n / 10)
    };
    let ghost head = r@;
    r.append(digit_text(n % 10));
    assert(r@ =~= head.push(digit_char((n % 10) as nat)));
    assert(n < 10 ==> r@ =~= seq![digit_char(n as nat)]);
    r
}

proof fn lemma_number_grows(s: Seq<char>, n: int)
    requires
        0 <= n <= s.len(),
        all_digits(s),
    ensures
        number_of(s.take(n)) <= number_of(s),
    decreases s.len() - n,
{
    if n == s.len() {
        assert(s.take(n) =~= s);
    } else {
        assert(s.take(n + 1).drop_last() =~= s.take(n));
        assert(s.take(n + 1).last() == s[n]);
        lemma_number_grows(s, n + 1);
    }
}

/// The byte that a text denotes.
pub fn parse_byte(s: &str) -> (r: Option<u8>)
    ensures
        r == byte_of(s@),
{
    let x = chars_of(s);
    let start: usize = if x.len() > 0 && x[0] == '+' {
        1
    } else {
        0
    };
    let ghost digits = unsigned_digits(s@);
    assert(digits =~= s@.skip(start as int));
    if start == x.len() {
        return None;
    }
    let mut acc: u16 = 0;
    let mut i: usize = start;
    assert(digits.take(0) =~= Seq::empty());
    while i < x.len()
        invariant
            x@ == s@,
            start <= i <= x.len(),
            digits == s@.skip(start as int),
            digits.len() > 0,
            digits == unsigned_digits(s@),
            acc <= 255,
            forall|j: int| 0 <= j < i - start ==> 48 <= #[trigger] digits[j] as int <= 57,
            acc == number_of(digits.take(i - start)),
        decreases x.len() - i,
    {
        let c: u32 = code_point(x[i]);
        assert(digits[i - start] == x@[i as int]);
        if c < 48 || c > 57 {
            return None;
        }
        let d: u16 = (c - 48) as u16;
        proof {
            assert(digits.take(i - start + 1).drop_last() =~= digits.take(i - start));
            assert(digits.take(i - start + 1).last() == digits[i - start]);
        }
        acc = acc * 10 + d;
        if acc > 255 {
            proof {
                if all_digits(digits) {
                    lemma_number_grows(digits, i - start + 1);
                }
            }
            return None;
        }
        i = i + 1;
    }
    assert(digits.take(i - start) =~= digits);
    Some(acc as u8)
}

/// The position of the last `c` in `s`.
pub fn rfind(s: &str, c: char) -> (r: Option<usize>)
    ensures
        r is None ==> !s@.contains(c),
        r matches Some(i) ==> i < s@.len() && s@[i as int] == c && forall|j: int|
            i < j < s@.len() ==> s@[j] != c,
{
    let x = chars_of(s);
    let mut n: usize = x.len();
    while n > 0
        invariant
            x@ == s@,
            n <= x.len(),
            forall|j: int| n <= j < s@.len() ==> s@[j] != c,
        decreases n,
    {
        n = n - 1;
        if x[n] == c {
            return Some(n);
        }
    }
    None
}

fn lower_char(c: char) -> (r: u32)
    ensures
        r == lower(c) as int,
{
    let n: u32 = c as u32;
    if 65 <= n && n <= 90 {
        n + 32
    } else {
        n
    }
}

/// Whether `s`, with its ASCII letters in lower case, is `word`.
pub fn lower_is(s: &str, word: &str) -> (r: bool)
    ensures
        r == (lower_text(s@) == word@),
{
    let x = chars_of(s);
    let y = chars_of(word);
    if x.len() != y.len() {
        return false;
    }
    let mut i: usize = 0;
    while i < x.len()
        invariant
            x@ == s@,
            y@ == word@,
            x.len() == y.len(),
            i <= x.len(),
            forall|j: int| 0 <= j < i ==> lower_text(s@)[j] == y@[j],
        decreases x.len() - i,
    {
        if lower_char(x[i]) != code_point(y[i]) {
            assert(lower_text(s@)[i as int] == lower(x@[i as int]));
            return false;
        }
        assert(lower_text(s@)[i as int] == lower(x@[i as int]));
        i = i + 1;
    }
    assert(lower_text(s@) =~= word@);
    true
}

/// Whether `a` comes before `b` in the order of texts.
pub fn comes_before(a: &str, b: &str) -> (r: bool)
    ensures
        r == text_before(a@, b@),
{
    let x = chars_of(a);
    let y = chars_of(b);
    let mut i: usize = 0;
    assert(a@.skip(0) =~= a@);
    assert(b@.skip(0) =~= b@);
    while i < x.len() && i < y.len()
        invariant
            x@ == a@,
            y@ == b@,
            i <= x.len(),
            i <= y.len(),
            text_before(a@, b@) == text_before(a@.skip(i as int), b@.skip(i as int)),
        decreases x.len() - i,
    {
        assert(a@.skip(i as int)[0] == x@[i as int]);
        assert(b@.skip(i as int)[0] == y@[i as int]);
        if x[i] != y[i] {
            return code_point(x[i]) < code_point(y[i]);
        }
        assert(a@.skip(i as int).drop_first() =~= a@.skip(i + 1));
        assert(b@.skip(i as int).drop_first() =~= b@.skip(i + 1));
        i = i + 1;
    }
    i < y.len()
}

/// Whether a list holds a text.
pub fn holds(list: &Vec<String>, s: &str) -> (r: bool)
    ensures
        r == strings(list@).contains(s@),
{
    let mut i: usize = 0;
    while i < list.len()
        invariant
            i <= list.len(),
            forall|j: int| 0 <= j < i ==> strings(list@)[j] != s@,
        decreases list.len() - i,
    {
        if same_text(list[i].as_str(), s) {
            assert(strings(list@)[i as int] == s@);
            return true;
        }
        i = i + 1;
    }
    false
}

/// A list of the same strings.
pub fn clone_strings(list: &Vec<String>) -> (r: Vec<String>)
    ensures
        r@ == list@,
{
    let mut r: Vec<String> = Vec::new();
    let mut i: usize = 0;
    while i < list.len()
        invariant
            i <= list.len(),
            r@ == list@.take(i as int),
        decreases list.len() - i,
    {
        let s = list[i].clone();
        assert(list@.take(i + 1) =~= list@.take(i as int).push(list@[i as int]));
        r.push(s);
        i = i + 1;
    }
    assert(list@.take(i as int) =~= list@);
    r
}

/// Puts a text into an ordered list, unless it is there.
pub fn insert_ordered(list: &mut Vec<String>, s: String)
    requires
        ordered(strings(old(list)@)),
    ensures
        ordered(strings(final(list)@)),
        forall|t: Seq<char>|
            strings(final(list)@).contains(t) <==> (strings(old(list)@).contains(t) || t == s@),
{
    let ghost before = strings(list@);
    let mut i: usize = 0;
    while i < list.len() && comes_before(list[i].as_str(), s.as_str())
        invariant
            list@ == old(list)@,
            before == strings(list@),
            i <= list.len(),
            forall|j: int| 0 <= j < i ==> text_before(#[trigger] before[j], s@),
        decreases list.len() - i,
    {
        assert(before[i as int] == list@[i as int]@);
        i = i + 1;
    }
    if i < list.len() && same_text(list[i].as_str(), s.as_str()) {
        assert(before[i as int] == s@);
        return ;
    }
    proof {
        if i < list.len() {
            assert(before[i as int] == list@[i as int]@);
            text_before_total(before[i as int], s@);
            assert forall|j: int| i <= j < before.len() implies text_before(
                s@,
                #[trigger] before[j],
            ) by {
                if j > i {
                    assert(text_before(before[i as int], before[j]));
                    text_before_transitive(s@, before[i as int], before[j]);
                }
            }
        }
    }
    let ghost text = s@;
    list.insert(i, s);
    proof {
        let after = strings(list@);
        assert(after =~= before.insert(i as int, text));
        assert forall|a: int, b: int| 0 <= a < b < after.len() implies text_before(
            #[trigger] after[a],
            #[trigger] after[b],
        ) by {
            if a < i {
                if b > i {
                    assert(text_before(before[a], before[b - 1]));
                } else if b < i {
                    assert(text_before(before[a], before[b]));
                }
            } else if a > i {
                assert(text_before(before[a - 1], before[b - 1]));
            } else {
                assert(text_before(text, before[b - 1]));
            }
        }
        assert forall|t: Seq<char>| after.contains(t) <==> (before.contains(t) || t == text) by {
            if before.contains(t) {
                let k = choose|k: int| 0 <= k < before.len() && before[k] == t;
                if k < i {
                    assert(after[k] == t);
                } else {
                    assert(after[k + 1] == t);
                }
            }
            assert(after[i as int] == text);
            if after.contains(t) {
                let k = choose|k: int| 0 <= k < after.len() && after[k] == t;
                if k < i {
                    assert(before[k] == t);
                } else if k > i {
                    assert(before[k - 1] == t);
                }
            }
        }
    }
}

/// The texts of a list, each where it first occurs.
pub open spec fn first_occurrences(list: Seq<Seq<char>>) -> Seq<Seq<char>>
    decreases list.len(),
{
    if list.len() == 0 {
        Seq::empty()
    } else {
        let front = first_occurrences(list.drop_last());
        if front.contains(list.last()) {
            front
        } else {
            front.push(list.last())
        }
    }
}

/// The first occurrences of a list are its texts, each once.
pub proof fn first_occurrences_are_distinct(list: Seq<Seq<char>>)
    ensures
        first_occurrences(list).no_duplicates(),
        forall|t: Seq<char>| #[trigger] first_occurrences(list).contains(t) <==> list.contains(t),
    decreases list.len(),
{
    if list.len() > 0 {
        let rest = list.drop_last();
        let front = first_occurrences(rest);
        let all = first_occurrences(list);
        first_occurrences_are_distinct(rest);
        assert forall|t: Seq<char>| #[trigger] all.contains(t) <==> list.contains(t) by {
            assert(list[list.len() - 1] == list.last());
            if list.contains(t) && t != list.last() {
                let i = list.index_of(t);
                assert(rest[i] == t);
            }
            if rest.contains(t) {
                let i = rest.index_of(t);
                assert(list[i] == t);
            }
            if front.contains(t) {
                let i = front.index_of(t);
                assert(all[i] == t);
            }
            if !front.contains(list.last()) {
                assert(all[front.len() as int] == list.last());
            }
            if all.contains(t) {
                let i = all.index_of(t);
                if i < front.len() {
                    assert(front[i] == t);
                }
            }
        }
    }
}

/// The texts of a list, each where it first occurs.
pub fn distinct(list: &Vec<String>) -> (r: Vec<String>)
    ensures
        strings(r@) == first_occurrences(strings(list@)),
{
    let mut r: Vec<String> = Vec::new();
    let ghost all = strings(list@);
    let mut i: usize = 0;
    assert(strings(r@) =~= Seq::empty());
    assert(all.take(0) =~= Seq::empty());
    while i < list.len()
        invariant
            i <= list.len(),
            all == strings(list@),
            strings(r@) == first_occurrences(all.take(i as int)),
        decreases list.len() - i,
    {
        let ghost before = strings(r@);
        let text = &list[i];
        assert(all.take(i + 1).drop_last() =~= all.take(i as int));
        assert(all.take(i + 1).last() == text@);
        if !holds(&r, text.as_str()) {
            r.push(text.clone());
            assert(strings(r@) =~= before.push(text@));
        }
        i = i + 1;
    }
    assert(all.take(i as int) =~= all);
    r
}

/// Whether two lists hold the same texts at the same places.
pub open spec fn same_texts(a: Seq<String>, b: Seq<String>) -> bool {
    a.len() == b.len() && forall|i: int| 0 <= i < a.len() ==> (#[trigger] a[i])@ == b[i]@
}

/// The texts of two lists are the same exactly if they are at each place.
pub proof fn same_strings(a: Seq<String>, b: Seq<String>)
    ensures
        strings(a) == strings(b) <==> same_texts(a, b),
        strings(a).len() == a.len(),
        forall|i: int| 0 <= i < a.len() ==> #[trigger] strings(a)[i] == a[i]@,
{
    if strings(a) == strings(b) {
        assert(a.len() == strings(a).len());
        assert forall|i: int| 0 <= i < a.len() implies (#[trigger] a[i])@ == b[i]@ by {
            assert(strings(a)[i] == strings(b)[i]);
        }
    }
    if same_texts(a, b) {
        assert(strings(a) =~= strings(b));
    }
}

/// A text is in a list exactly if it is the text of some string of the list.
pub proof fn listed_texts(v: Seq<String>, t: Seq<char>)
    ensures
        strings(v).contains(t) <==> exists|i: int| 0 <= i < v.len() && (#[trigger] v[i])@ == t,
{
    if strings(v).contains(t) {
        let i = strings(v).index_of(t);
        assert(v[i]@ == t);
    }
    if exists|i: int| 0 <= i < v.len() && (#[trigger] v[i])@ == t {
        let i = choose|i: int| 0 <= i < v.len() && (#[trigger] v[i])@ == t;
        assert(strings(v)[i] == t);
    }
}

/// Whether every character is whitespace.
pub open spec fn all_whitespace(s: Seq<char>) -> bool {
    forall|i: int| 0 <= i < s.len() ==> whitespace(#[trigger] s[i])
}

proof fn lemma_trim_start(front: Seq<char>, core: Seq<char>)
    requires
        all_whitespace(front),
        core.len() > 0 ==> !whitespace(core[0]),
    ensures
        trim_start_text(front + core) == core,
    decreases front.len(),
{
    let s = front + core;
    if front.len() > 0 {
        assert(s[0] == front[0]);
        assert(whitespace(front[0]));
        let rest = front.drop_first();
        assert forall|i: int| 0 <= i < rest.len() implies whitespace(#[trigger] rest[i]) by {
            assert(rest[i] == front[i + 1]);
        }
        lemma_trim_start(rest, core);
        assert(s.drop_first() =~= rest + core);
    } else {
        assert(s =~= core);
    }
}

proof fn lemma_trim_end(core: Seq<char>, back: Seq<char>)
    requires
        all_whitespace(back),
        core.len() > 0 ==> !whitespace(core.last()),
    ensures
        trim_end_text(core + back) == core,
    decreases back.len(),
{
    let s = core + back;
    if back.len() > 0 {
        assert(s.last() == back.last());
        assert(whitespace(back[back.len() - 1]));
        let rest = back.drop_last();
        assert forall|i: int| 0 <= i < rest.len() implies whitespace(#[trigger] rest[i]) by {
            assert(rest[i] == back[i]);
        }
        lemma_trim_end(core, rest);
        assert(s.drop_last() =~= core + rest);
    } else {
        assert(s =~= core);
    }
}

/// Trimming takes away the whitespace at the ends and nothing else.
pub proof fn trimming_removes_the_ends(front: Seq<char>, core: Seq<char>, back: Seq<char>)
    requires
        all_whitespace(front),
        all_whitespace(back),
        core.len() > 0 ==> !whitespace(core[0]) && !whitespace(core.last()),
    ensures
        trim_text(front + core + back) == core,
        core.len() > 0 ==> trim_end_text(front + core + back) == front + core,
{
    if core.len() > 0 {
        assert(front + core + back =~= front + (core + back));
        assert((core + back)[0] == core[0]);
        lemma_trim_start(front, core + back);
        lemma_trim_end(core, back);
        assert((front + core).last() == core.last());
        lemma_trim_end(front + core, back);
    } else {
        let s = front + core + back;
        assert forall|i: int| 0 <= i < s.len() implies whitespace(#[trigger] s[i]) by {
            if i < front.len() {
                assert(s[i] == front[i]);
            } else {
                assert(s[i] == back[i - front.len()]);
            }
        }
        assert(s =~= s + core);
        lemma_trim_start(s, core);
        assert(core =~= Seq::empty());
    }
}

/// A text is all whitespace exactly if nothing is left of it when it is trimmed.
pub proof fn blank_texts_are_whitespace(s: Seq<char>)
    ensures
        trim_text(s).len() == 0 <==> all_whitespace(s),
    decreases s.len(),
{
    if all_whitespace(s) {
        let none = Seq::<char>::empty();
        trimming_removes_the_ends(s, none, none);
        assert(s + none + none =~= s);
    } else if whitespace(s[0]) {
        let rest = s.drop_first();
        blank_texts_are_whitespace(rest);
        if all_whitespace(rest) {
            assert forall|i: int| 0 <= i < s.len() implies whitespace(#[trigger] s[i]) by {
                if i > 0 {
                    assert(s[i] == rest[i - 1]);
                }
            }
        }
    } else {
        lemma_trim_end_keeps(s);
    }
}

proof fn lemma_trim_end_keeps(s: Seq<char>)
    requires
        s.len() > 0,
        !whitespace(s[0]),
    ensures
        trim_end_text(s).len() > 0,
    decreases s.len(),
{
    if whitespace(s.last()) {
        assert(s.len() > 1);
        assert(s.drop_last()[0] == s[0]);
        lemma_trim_end_keeps(s.drop_last());
    }
}

/// Among the ASCII characters, tab, line feed, vertical tab, form feed, carriage return and space
/// are whitespace. Above them there are the next line, the no-break space, the spaces of the general
/// punctuation block, its two separators, and those of two scripts.
pub proof fn whitespace_characters(c: char)
    ensures
        (c as int) < 0x80 ==> (whitespace(c) <==> c == ' ' || c == '\t' || c == '\n' || c == '\r'
            || c as int == 11 || c as int == 12),
        0x80 <= c as int ==> (whitespace(c) <==> c as int == 133 || c as int == 160 || c as int
            == 5760 || 8192 <= c as int <= 8202 || c as int == 8232 || c as int == 8233 || c as int
            == 8239 || c as int == 8287 || c as int == 12288),
{
}

/// A text comes before every longer one that begins with it, and of two texts that first differ in
/// one character the one with the smaller character comes first.
pub proof fn first_difference_decides(
    front: Seq<char>,
    c: char,
    d: char,
    x: Seq<char>,
    y: Seq<char>,
)
    ensures
        text_before(front, front.push(c) + x),
        !text_before(front.push(c) + x, front),
        c != d ==> (text_before(front.push(c) + x, front.push(d) + y) <==> (c as int) < (d as int)),
    decreases front.len(),
{
    let a = front.push(c) + x;
    let b = front.push(d) + y;
    if front.len() > 0 {
        let rest = front.drop_first();
        first_difference_decides(rest, c, d, x, y);
        assert(a.drop_first() =~= rest.push(c) + x);
        assert(b.drop_first() =~= rest.push(d) + y);
        assert(a[0] == front[0] && b[0] == front[0]);
    } else {
        assert(a[0] == c && b[0] == d);
    }
}

/// Splitting leaves no separator in any part.
pub proof fn parts_hold_no_separator(s: Seq<char>, sep: char, i: int)
    requires
        0 <= i < split_text(s, sep).len(),
    ensures
        !split_text(s, sep)[i].contains(sep),
    decreases s.len(),
{
    lemma_find(s, sep);
    let k = find(s, sep);
    let parts = split_text(s, sep);
    if k < s.len() {
        let tail = s.skip(k + 1);
        if i == 0 {
            assert(parts[0] == s.take(k));
        } else {
            assert(parts[i] == split_text(tail, sep)[i - 1]);
            parts_hold_no_separator(tail, sep, i - 1);
        }
    } else {
        assert(parts[0] == s);
    }
}

/// Decimal notation puts the digit of the ones behind the notation of the tens, and has no zero in
/// front.
pub proof fn decimal_digits(n: nat, d: nat)
    requires
        d < 10,
    ensures
        decimal_text(d) == seq![(48 + d) as char],
        n > 0 ==> decimal_text(10 * n + d) == decimal_text(n) + decimal_text(d),
        n > 0 ==> decimal_text(n)[0] != '0',
    decreases n,
{
    assert((10 * n + d) / 10 == n);
    assert((10 * n + d) % 10 == d);
    if n > 0 {
        assert(decimal_text(10 * n + d) =~= decimal_text(n) + decimal_text(d));
        if n >= 10 {
            decimal_digits(n / 10, n % 10);
            lemma_decimal(n / 10);
            assert(decimal_text(n)[0] == decimal_text(n / 10)[0]);
        } else {
            assert(decimal_text(n)[0] == digit_char(n));
            assert(digit_char(n) as int == 48 + n);
        }
    }
}

/// Numbers with the same decimal notation are the same.
pub proof fn decimal_is_injective(m: nat, n: nat)
    requires
        decimal_text(m) == decimal_text(n),
    ensures
        m == n,
{
    lemma_decimal(m);
    lemma_decimal(n);
}

/// The value of digits grows tenfold with each digit that follows.
pub proof fn digits_have_their_place(s: Seq<char>, c: char)
    ensures
        number_of(Seq::empty()) == 0,
        48 <= c as int <= 57 ==> number_of(s.push(c)) == 10 * number_of(s) + (c as int - 48),
{
    assert(s.push(c).drop_last() =~= s);
}

/// Which texts denote a byte: digits whose value is below 256, with one plus sign in front of them
/// or none. Zeros in front do not count.
pub proof fn byte_notation(s: Seq<char>)
    ensures
        byte_of(Seq::empty()) is None,
        (s.len() > 0 && all_digits(s)) ==> {
            &&& byte_of(s) == (if number_of(s) < 256 {
                Some(number_of(s) as u8)
            } else {
                None
            })
            &&& byte_of(seq!['+'] + s) == byte_of(s)
            &&& byte_of(seq!['0'] + s) == byte_of(s)
        },
        (s.len() > 0 && !all_digits(s) && s[0] != '+') ==> byte_of(s) is None && byte_of(
            seq!['+'] + s,
        ) is None,
        (s.len() > 0 && s[0] == '+') ==> byte_of(seq!['+'] + s) is None,
{
    let plus = seq!['+'] + s;
    assert(plus.drop_first() =~= s);
    if s.len() > 0 {
        if all_digits(s) {
            assert(s[0] as int <= 57 && s[0] as int >= 48);
            let zero = seq!['0'] + s;
            lemma_leading_zero(s);
            assert forall|i: int| 0 <= i < zero.len() implies 48 <= #[trigger] zero[i] as int
                <= 57 by {
                if i > 0 {
                    assert(zero[i] == s[i - 1]);
                }
            }
            assert(unsigned_digits(zero) == zero);
        }
        if s[0] == '+' {
            assert(!(48 <= s[0] as int <= 57));
        }
    }
}

proof fn lemma_leading_zero(s: Seq<char>)
    ensures
        number_of(seq!['0'] + s) == number_of(s),
    decreases s.len(),
{
    let zero = seq!['0'] + s;
    if s.len() > 0 {
        lemma_leading_zero(s.drop_last());
        assert(zero.drop_last() =~= seq!['0'] + s.drop_last());
        assert(zero.last() == s.last());
    } else {
        assert(zero.drop_last() =~= Seq::empty());
        assert(zero.last() == '0');
        reveal_with_fuel(number_of, 2);
    }
}

/// A letter from A to Z has the lower-case letter of its place in the alphabet, and any other
/// character is its own lower case.
pub proof fn lower_case_letters(s: Seq<char>, i: int)
    requires
        0 <= i < s.len(),
    ensures
        lower_text(s).len() == s.len(),
        'A' as int <= s[i] as int <= 'Z' as int ==> lower_text(s)[i] as int - 'a' as int == s[i] as int
            - 'A' as int,
        !('A' as int <= s[i] as int <= 'Z' as int) ==> lower_text(s)[i] == s[i],
{
}

/// A text that is added to a list stays out if the list has it, and else comes last. A list without
/// repetitions stays as it is.
pub proof fn occurrences_keep_their_order(list: Seq<Seq<char>>, t: Seq<char>)
    ensures
        list.contains(t) ==> first_occurrences(list.push(t)) == first_occurrences(list),
        !list.contains(t) ==> first_occurrences(list.push(t)) == first_occurrences(list).push(t),
        list.no_duplicates() ==> first_occurrences(list) == list,
    decreases list.len(),
{
    first_occurrences_are_distinct(list);
    assert(list.push(t).drop_last() =~= list);
    if list.len() > 0 && list.no_duplicates() {
        let front = list.drop_last();
        occurrences_keep_their_order(front, list.last());
        assert(front.no_duplicates()) by {
            assert forall|i: int, j: int|
                0 <= i < front.len() && 0 <= j < front.len() && i != j implies front[i]
                != front[j] by {
                assert(front[i] == list[i] && front[j] == list[j]);
            }
        }
        if front.contains(list.last()) {
            let i = front.index_of(list.last());
            assert(list[i] == list[list.len() - 1]);
        }
        assert(front.push(list.last()) =~= list);
    } else if list.len() == 0 {
        assert(first_occurrences(list) =~= list);
    }
}

/// In an ordered list each text comes before those behind it, so that none occurs twice.
pub proof fn ordered_lists_ascend(v: Seq<Seq<char>>, i: int, j: int)
    requires
        ordered(v),
        0 <= i < j < v.len(),
    ensures
        text_before(v[i], v[j]),
        v[i] != v[j],
{
    text_before_irreflexive(v[i]);
}

} // verus!
