//! Small operations on text, stated over sequences of characters.

use vstd::prelude::*;
use vstd::string::StringExecFns;
use vstd::utf8::*;

verus! {

/// `String::push` puts one character behind what the string holds.
pub assume_specification[ String::push ](s: &mut String, c: char)
    ensures
        final(s)@ == old(s)@.push(c),
;

/// `String::from_utf8`: bytes that are UTF-8 become the text that they encode.
#[verifier::external_body]
pub(crate) fn text_from_utf8(bytes: Vec<u8>) -> (r: Option<String>)
    ensures
        r is Some <==> valid_utf8(bytes@),
        r matches Some(s) ==> s@ == decode_utf8(bytes@),
{
    String::from_utf8(bytes).ok()
}

/// The characters of a text, in order.
pub fn chars_of(s: &str) -> (out: Vec<char>)
    ensures
        out@ == s@,
{
    let mut out: Vec<char> = Vec::new();
    for c in it: s.chars()
        invariant
            out@ == it.seq().take(it.index() as int),
            it.seq() == s@,
    {
        out.push(c);
    }
    out
}

/// The text made of the characters `v[from..to]`.
pub fn text_of(v: &Vec<char>, from: usize, to: usize) -> (out: String)
    requires
        from <= to <= v@.len(),
    ensures
        out@ == v@.subrange(from as int, to as int),
{
    let mut out = String::new();
    let mut i: usize = from;
    while i < to
        invariant
            from <= i <= to <= v@.len(),
            out@ == v@.subrange(from as int, i as int),
        decreases to - i,
    {
        out.push(v[i]);
        i += 1;
    }
    out
}

/// Whether two texts hold the same characters.
pub fn same_text(a: &str, b: &str) -> (r: bool)
    ensures
        r == (a@ == b@),
{
    let x = a.as_bytes();
    let y = b.as_bytes();
    proof {
        encode_utf8_decode_utf8(a@);
        encode_utf8_decode_utf8(b@);
    }
    if x.len() != y.len() {
        return false;
    }
    let mut i: usize = 0;
    while i < x.len()
        invariant
            i <= x@.len(),
            x@.len() == y@.len(),
            x@ == encode_utf8(a@),
            y@ == encode_utf8(b@),
            forall|j: int| 0 <= j < i ==> x@[j] == y@[j],
        decreases x@.len() - i,
    {
        if x[i] != y[i] {
            return false;
        }
        i += 1;
    }
    assert(x@ =~= y@);
    true
}

/// `s` begins with `p`.
pub open spec fn has_prefix(s: Seq<char>, p: Seq<char>) -> bool {
    p.len() <= s.len() && s.subrange(0, p.len() as int) == p
}

/// `s` ends with `p`.
pub open spec fn has_suffix(s: Seq<char>, p: Seq<char>) -> bool {
    p.len() <= s.len() && s.subrange(s.len() - p.len(), s.len() as int) == p
}

/// Whether `s` begins with `prefix`.
pub fn starts_with(s: &str, prefix: &str) -> (r: bool)
    ensures
        r == has_prefix(s@, prefix@),
{
    let v = chars_of(s);
    let p = chars_of(prefix);
    if p.len() > v.len() {
        return false;
    }
    let mut i: usize = 0;
    while i < p.len()
        invariant
            i <= p@.len() <= v@.len(),
            v@ == s@,
            p@ == prefix@,
            forall|j: int| 0 <= j < i ==> v@[j] == p@[j],
        decreases p@.len() - i,
    {
        if v[i] != p[i] {
            assert(s@.subrange(0, p@.len() as int)[i as int] == v@[i as int]);
            return false;
        }
        i += 1;
    }
    assert(s@.subrange(0, p@.len() as int) =~= prefix@);
    true
}

/// Whether `s` ends with `suffix`.
pub fn ends_with(s: &str, suffix: &str) -> (r: bool)
    ensures
        r == has_suffix(s@, suffix@),
{
    let v = chars_of(s);
    let p = chars_of(suffix);
    if p.len() > v.len() {
        return false;
    }
    let start: usize = v.len() - p.len();
    let mut i: usize = 0;
    while i < p.len()
        invariant
            i <= p@.len() <= v@.len(),
            start == v.len() - p.len(),
            v@ == s@,
            p@ == suffix@,
            forall|j: int| 0 <= j < i ==> v@[start + j] == p@[j],
        decreases p@.len() - i,
    {
        if v[start + i] != p[i] {
            assert(s@.subrange(start as int, s@.len() as int)[i as int] == v@[start + i]);
            return false;
        }
        i += 1;
    }
    assert(s@.subrange(start as int, s@.len() as int) =~= suffix@);
    true
}

/// What stands behind `prefix` in `s`, where `s` begins with it.
pub fn strip_prefix(s: &str, prefix: &str) -> (r: Option<String>)
    ensures
        r is Some <==> has_prefix(s@, prefix@),
        r matches Some(rest) ==> rest@ == s@.skip(prefix@.len() as int),
{
    if !starts_with(s, prefix) {
        return None;
    }
    let v = chars_of(s);
    let p = chars_of(prefix);
    let rest = text_of(&v, p.len(), v.len());
    assert(rest@ =~= s@.skip(prefix@.len() as int));
    Some(rest)
}

/// `s` with every `from` written as `to`.
pub open spec fn replaced(s: Seq<char>, from: char, to: char) -> Seq<char> {
    s.map_values(|c: char| if c == from { to } else { c })
}

/// `s` with every `from` written as `to`.
pub fn replace_char(s: &str, from: char, to: char) -> (out: String)
    ensures
        out@ == replaced(s@, from, to),
{
    let v = chars_of(s);
    let mut out = String::new();
    let mut i: usize = 0;
    while i < v.len()
        invariant
            i <= v@.len(),
            v@ == s@,
            out@ == replaced(v@.take(i as int), from, to),
        decreases v@.len() - i,
    {
        out.push(if v[i] == from { to } else { v[i] });
        i += 1;
        assert(replaced(v@.take(i as int), from, to) =~= replaced(
            v@.take(i - 1),
            from,
            to,
        ).push(if v@[i - 1] == from { to } else { v@[i - 1] }));
    }
    assert(v@.take(v@.len() as int) =~= s@);
    out
}

/// `s` without the run of `c` at its end.
pub open spec fn trimmed_end(s: Seq<char>, c: char) -> Seq<char>
    decreases s.len(),
{
    if s.len() > 0 && s.last() == c {
        trimmed_end(s.drop_last(), c)
    } else {
        s
    }
}

/// `s` without the run of `c` at its start.
pub open spec fn trimmed_start(s: Seq<char>, c: char) -> Seq<char>
    decreases s.len(),
{
    if s.len() > 0 && s[0] == c {
        trimmed_start(s.drop_first(), c)
    } else {
        s
    }
}

/// `s` without the run of `c` at its end.
pub fn trim_end(s: &str, c: char) -> (out: String)
    ensures
        out@ == trimmed_end(s@, c),
{
    let v = chars_of(s);
    let mut n: usize = v.len();
    assert(v@.take(n as int) =~= s@);
    while n > 0 && v[n - 1] == c
        invariant
            n <= v@.len(),
            v@ == s@,
            trimmed_end(v@.take(n as int), c) == trimmed_end(s@, c),
        decreases n,
    {
        assert(v@.take(n as int).drop_last() =~= v@.take(n - 1));
        n -= 1;
    }
    let out = text_of(&v, 0, n);
    assert(out@ =~= v@.take(n as int));
    out
}

/// `s` without the run of `c` at its start.
pub fn trim_start(s: &str, c: char) -> (out: String)
    ensures
        out@ == trimmed_start(s@, c),
{
    let v = chars_of(s);
    let mut n: usize = 0;
    assert(v@.skip(0) =~= s@);
    while n < v.len() && v[n] == c
        invariant
            n <= v@.len(),
            v@ == s@,
            trimmed_start(v@.skip(n as int), c) == trimmed_start(s@, c),
        decreases v@.len() - n,
    {
        assert(v@.skip(n as int).drop_first() =~= v@.skip(n + 1));
        n += 1;
    }
    let out = text_of(&v, n, v.len());
    assert(out@ =~= v@.skip(n as int));
    out
}

/// The decimal digit of `d`, for `d` below ten.
pub open spec fn digit(d: int) -> char {
    ('0' as int + d) as char
}

/// `n` in decimal, without leading zeros.
pub open spec fn decimal(n: nat) -> Seq<char>
    decreases n,
{
    if n < 10 {
        seq![digit(n as int)]
    } else {
        decimal(n / 10).push(digit((n % 10) as int))
    }
}

/// Writes `n` in decimal.
pub fn decimal_text(n: u64) -> (out: String)
    ensures
        out@ == decimal(n as nat),
    decreases n,
{
    let mut out = if n < 10 {
        String::new()
    } else {
        decimal_text(n / 10)
    };
    let d: u8 = (n % 10) as u8;
    out.push((48u8 + d) as char);
    assert(out@ =~= decimal(n as nat));
    out
}

/// `n` in decimal, with a minus sign where it is below zero.
pub open spec fn signed_decimal(n: int) -> Seq<char> {
    if n < 0 {
        seq!['-'] + decimal((-n) as nat)
    } else {
        decimal(n as nat)
    }
}

/// Writes `n` in decimal.
pub fn signed_decimal_text(n: i32) -> (out: String)
    ensures
        out@ == signed_decimal(n as int),
{
    if n < 0 {
        let mut out = String::new();
        out.push('-');
        out.append(&decimal_text((-(n as i64)) as u64));
        assert(out@ =~= signed_decimal(n as int));
        out
    } else {
        decimal_text(n as u64)
    }
}

/// Where the last part of a path begins: behind its last slash.
pub open spec fn last_part_start(s: Seq<char>) -> nat
    decreases s.len(),
{
    if s.len() == 0 || s.last() == '/' {
        s.len()
    } else {
        last_part_start(s.drop_last())
    }
}

/// The name that a path ends with: its last part, where empty parts and parts `.` do not count. A
/// path that ends with `..`, or has no part that counts, ends with no name.
pub open spec fn base_name(s: Seq<char>) -> Seq<char>
    decreases s.len(),
{
    let start = last_part_start(s) as int;
    let part = s.skip(start);
    if part == seq!['.', '.'] {
        Seq::empty()
    } else if part.len() > 0 && part != seq!['.'] {
        part
    } else if 0 < start <= s.len() {
        base_name(s.take(start - 1))
    } else {
        Seq::empty()
    }
}

/// The name that a path ends with, or an empty text.
pub fn base_name_of(path: &str) -> (out: String)
    ensures
        out@ == base_name(path@),
{
    let v = chars_of(path);
    let mut end: usize = v.len();
    assert(v@.take(end as int) =~= path@);
    loop
        invariant
            end <= v@.len(),
            base_name(v@.take(end as int)) == base_name(path@),
        decreases end,
    {
        let ghost s = v@.take(end as int);
        let mut start: usize = end;
        while start > 0 && v[start - 1] != '/'
            invariant
                start <= end <= v@.len(),
                s == v@.take(end as int),
                last_part_start(v@.take(start as int)) == last_part_start(s),
            decreases start,
        {
            assert(v@.take(start as int).drop_last() =~= v@.take(start - 1));
            start -= 1;
        }
        assert(v@.take(start as int).len() == start);
        assert(last_part_start(s) == start);
        let ghost part = s.skip(start as int);
        assert(part =~= v@.subrange(start as int, end as int));
        let len: usize = end - start;
        if len == 2 && v[start] == '.' && v[start + 1] == '.' {
            assert(part =~= seq!['.', '.']);
            return String::new();
        }
        assert(part != seq!['.', '.']) by {
            if part == seq!['.', '.'] {
                assert(part[0] == '.' && part[1] == '.');
            }
        }
        if len > 0 && !(len == 1 && v[start] == '.') {
            assert(part != seq!['.']) by {
                if part == seq!['.'] {
                    assert(part[0] == '.');
                }
            }
            return text_of(&v, start, end);
        }
        assert(part.len() == 0 || part =~= seq!['.']);
        if start == 0 {
            return String::new();
        }
        assert(s.take(start - 1) =~= v@.take(start - 1));
        end = start - 1;
    }
}

/// A text begins with another exactly if something can be put behind the other to give it, and
/// that is what is left once the beginning is taken off.
pub proof fn a_text_is_its_beginning_and_the_rest(
    s: &str,
    prefix: &str,
    begins: bool,
    rest: Option<String>,
)
    requires
        call_ensures(starts_with, (s, prefix), begins),
        call_ensures(strip_prefix, (s, prefix), rest),
    ensures
        begins <==> rest is Some,
        rest matches Some(rest) ==> s@ == prefix@ + rest@,
        forall|t: Seq<char>| s@ == #[trigger] (prefix@ + t) ==> begins,
{
    if rest is Some {
        assert(s@ =~= s@.subrange(0, prefix@.len() as int) + s@.skip(prefix@.len() as int));
    }
    assert forall|t: Seq<char>| s@ == #[trigger] (prefix@ + t) implies begins by {
        assert(s@.subrange(0, prefix@.len() as int) =~= prefix@);
    }
}

/// A text ends with another exactly if something can be put before the other to give it.
pub proof fn a_text_is_what_comes_before_and_its_ending(s: &str, suffix: &str, ends: bool)
    requires
        call_ensures(ends_with, (s, suffix), ends),
    ensures
        ends ==> suffix@.len() <= s@.len() && s@ == s@.take(s@.len() - suffix@.len()) + suffix@,
        forall|t: Seq<char>| s@ == #[trigger] (t + suffix@) ==> ends,
{
    if ends {
        assert(s@ =~= s@.take(s@.len() - suffix@.len()) + s@.subrange(
            s@.len() - suffix@.len(),
            s@.len() as int,
        ));
    }
    assert forall|t: Seq<char>| s@ == #[trigger] (t + suffix@) implies ends by {
        assert(s@.subrange(s@.len() - suffix@.len(), s@.len() as int) =~= suffix@);
    }
}

/// Writing one character for another changes the text where that character stands, and nowhere
/// else.
pub proof fn only_the_replaced_character_changes(s: &str, from: char, to: char, out: String)
    requires
        call_ensures(replace_char, (s, from, to), out),
    ensures
        out@.len() == s@.len(),
        forall|i: int| 0 <= i < s@.len() && s@[i] == from ==> #[trigger] out@[i] == to,
        forall|i: int| 0 <= i < s@.len() && s@[i] != from ==> #[trigger] out@[i] == s@[i],
{
}

/// What `trimmed_end` leaves.
pub(crate) proof fn lemma_trimmed_end(s: Seq<char>, c: char)
    ensures
        trimmed_end(s, c).len() <= s.len(),
        s.take(trimmed_end(s, c).len() as int) == trimmed_end(s, c),
        forall|i: int| trimmed_end(s, c).len() <= i < s.len() ==> #[trigger] s[i] == c,
        trimmed_end(s, c).len() > 0 ==> trimmed_end(s, c).last() != c,
    decreases s.len(),
{
    if s.len() > 0 && s.last() == c {
        let front = s.drop_last();
        lemma_trimmed_end(front, c);
        let n = trimmed_end(front, c).len() as int;
        assert(s.take(n) =~= front.take(n));
        assert forall|i: int| n <= i < s.len() implies #[trigger] s[i] == c by {
            if i < front.len() {
                assert(front[i] == c);
            }
        }
    } else {
        assert(s.take(s.len() as int) =~= s);
    }
}

/// Trimming takes the run of a character off the end: what is left is the front of the text and does
/// not end with the character, and nothing else was behind it.
pub proof fn only_a_run_at_the_end_is_trimmed(s: &str, c: char, out: String)
    requires
        call_ensures(trim_end, (s, c), out),
    ensures
        out@.len() <= s@.len(),
        s@.take(out@.len() as int) == out@,
        forall|i: int| out@.len() <= i < s@.len() ==> #[trigger] s@[i] == c,
        out@.len() > 0 ==> out@.last() != c,
{
    lemma_trimmed_end(s@, c);
}

/// What `trimmed_start` leaves.
pub(crate) proof fn lemma_trimmed_start(s: Seq<char>, c: char)
    ensures
        trimmed_start(s, c).len() <= s.len(),
        s.skip(s.len() - trimmed_start(s, c).len()) == trimmed_start(s, c),
        forall|i: int| 0 <= i < s.len() - trimmed_start(s, c).len() ==> #[trigger] s[i] == c,
        trimmed_start(s, c).len() > 0 ==> trimmed_start(s, c)[0] != c,
    decreases s.len(),
{
    if s.len() > 0 && s[0] == c {
        let rest = s.drop_first();
        lemma_trimmed_start(rest, c);
        let n = trimmed_start(rest, c).len() as int;
        assert(s.skip(s.len() - n) =~= rest.skip(rest.len() - n));
        assert forall|i: int| 0 <= i < s.len() - n implies #[trigger] s[i] == c by {
            if i > 0 {
                assert(rest[i - 1] == c);
            }
        }
    } else {
        assert(s.skip(0) =~= s);
    }
}

/// Trimming takes the run of a character off the start: what is left is the back of the text and
/// does not begin with the character, and nothing else was before it.
pub proof fn only_a_run_at_the_start_is_trimmed(s: &str, c: char, out: String)
    requires
        call_ensures(trim_start, (s, c), out),
    ensures
        out@.len() <= s@.len(),
        s@.skip(s@.len() - out@.len()) == out@,
        forall|i: int| 0 <= i < s@.len() - out@.len() ==> #[trigger] s@[i] == c,
        out@.len() > 0 ==> out@[0] != c,
{
    lemma_trimmed_start(s@, c);
}

/// The number that digits stand for, the most significant first.
pub open spec fn number(digits: Seq<char>) -> int
    decreases digits.len(),
{
    if digits.len() == 0 {
        0
    } else {
        10 * number(digits.drop_last()) + (digits.last() as int - '0' as int)
    }
}

proof fn lemma_decimal_is_read_back(n: nat)
    ensures
        number(decimal(n)) == n,
        decimal(n).len() > 0,
        forall|i: int| 0 <= i < decimal(n).len() ==> '0' <= #[trigger] decimal(n)[i] <= '9',
        decimal(n).len() > 1 ==> decimal(n)[0] != '0',
        n > 0 ==> decimal(n)[0] != '0',
    decreases n,
{
    if n < 10 {
        assert(decimal(n).drop_last() =~= Seq::<char>::empty());
        assert(number(decimal(n).drop_last()) == 0);
    } else {
        lemma_decimal_is_read_back(n / 10);
        assert(decimal(n).drop_last() =~= decimal(n / 10));
        assert forall|i: int| 0 <= i < decimal(n).len() implies '0' <= #[trigger] decimal(n)[i]
            <= '9' by {
            if i < decimal(n / 10).len() {
                assert(decimal(n)[i] == decimal(n / 10)[i]);
            }
        }
        assert(decimal(n)[0] == decimal(n / 10)[0]);
    }
}

/// A number in decimal is read back as that number; it holds digits only, and begins with a zero
/// only where it is zero.
pub proof fn a_decimal_text_is_read_back(n: u64, out: String)
    requires
        call_ensures(decimal_text, (n,), out),
    ensures
        number(out@) == n,
        out@.len() > 0,
        forall|i: int| 0 <= i < out@.len() ==> '0' <= #[trigger] out@[i] <= '9',
        out@[0] == '0' ==> n == 0 && out@.len() == 1,
{
    lemma_decimal_is_read_back(n as nat);
}

/// A number below zero is its amount behind a minus sign; any other number has no sign.
pub proof fn a_signed_decimal_text_is_read_back(n: i32, out: String)
    requires
        call_ensures(signed_decimal_text, (n,), out),
    ensures
        out@.len() > 0,
        out@[0] == '-' <==> n < 0,
        n < 0 ==> number(out@.skip(1)) == -n,
        n >= 0 ==> number(out@) == n,
{
    if n < 0 {
        lemma_decimal_is_read_back((-n) as nat);
        assert(out@.skip(1) =~= decimal((-n) as nat));
    } else {
        lemma_decimal_is_read_back(n as nat);
        assert('0' <= decimal(n as nat)[0]);
    }
}

proof fn lemma_last_part(s: Seq<char>, part: Seq<char>)
    requires
        !part.contains('/'),
        s.len() == 0 || s.last() == '/',
    ensures
        last_part_start(s + part) == s.len(),
        (s + part).skip(s.len() as int) == part,
    decreases part.len(),
{
    assert((s + part).skip(s.len() as int) =~= part);
    if part.len() == 0 {
        assert(s + part =~= s);
    } else {
        assert(part.contains(part.last()));
        assert((s + part).drop_last() =~= s + part.drop_last());
        assert forall|c: char| part.drop_last().contains(c) implies part.contains(c) by {
            let i = choose|i: int| 0 <= i < part.drop_last().len() && part.drop_last()[i] == c;
            assert(part[i] == c);
        }
        lemma_last_part(s, part.drop_last());
        assert((s + part).last() == part.last());
    }
}

/// A path that ends in a plain part ends with that name, whatever directory it stands in; with none
/// it is the name itself.
pub proof fn a_path_ends_with_its_last_part(path: &str, dir: Seq<char>, name: Seq<char>, out: String)
    requires
        call_ensures(base_name_of, (path,), out),
        path@ == dir + seq!['/'] + name || path@ == name,
        !name.contains('/'),
        name.len() > 0,
        name != seq!['.'],
        name != seq!['.', '.'],
    ensures
        out@ == name,
{
    if path@ == name {
        lemma_last_part(Seq::empty(), name);
        assert(Seq::<char>::empty() + name =~= name);
    } else {
        lemma_last_part(dir + seq!['/'], name);
    }
}

/// A slash at the end of a path, or a part `.` there, does not change the name that the path ends
/// with. A path that leads up at its end, or is empty, ends with no name.
pub proof fn a_path_is_read_past_parts_that_do_not_count(
    path: &str,
    out: String,
    longer: &str,
    tail: Seq<char>,
    longer_out: String,
)
    requires
        call_ensures(base_name_of, (path,), out),
        call_ensures(base_name_of, (longer,), longer_out),
        longer@ == path@ + seq!['/'] + tail,
        tail == Seq::<char>::empty() || tail == seq!['.'] || tail == seq!['.', '.'],
    ensures
        tail.len() < 2 ==> longer_out@ == out@,
        tail.len() == 2 ==> longer_out@.len() == 0,
        path@.len() == 0 ==> out@.len() == 0,
        path@ == seq!['.'] ==> out@.len() == 0,
        path@ == seq!['.', '.'] ==> out@.len() == 0,
{
    let dir = path@ + seq!['/'];
    lemma_last_part(dir, tail);
    assert(longer@.take(dir.len() - 1) =~= path@);
    if path@.len() < 3 && !path@.contains('/') {
        lemma_last_part(Seq::empty(), path@);
        assert(Seq::<char>::empty() + path@ =~= path@);
    }
}

/// The name that a path ends with holds no slash, and is not `.` or `..`.
pub proof fn a_base_name_is_one_plain_part(path: &str, out: String)
    requires
        call_ensures(base_name_of, (path,), out),
    ensures
        !out@.contains('/'),
        out@ != seq!['.'],
        out@ != seq!['.', '.'],
{
    lemma_base_name_is_plain(path@);
}

proof fn lemma_base_name_is_plain(s: Seq<char>)
    ensures
        !base_name(s).contains('/'),
        base_name(s) != seq!['.'],
        base_name(s) != seq!['.', '.'],
    decreases s.len(),
{
    let start = last_part_start(s) as int;
    lemma_no_slash_behind(s);
    let part = s.skip(start);
    if part.contains('/') {
        let i = choose|i: int| 0 <= i < part.len() && part[i] == '/';
        assert(s[start + i] == '/');
    }
    let one = seq!['.'];
    let two = seq!['.', '.'];
    assert(one.len() == 1 && two.len() == 2);
    if part == two {
        assert(base_name(s).len() == 0);
    } else if part.len() > 0 && part != one {
        assert(base_name(s) == part);
    } else if 0 < start <= s.len() {
        lemma_base_name_is_plain(s.take(start - 1));
    } else {
        assert(base_name(s).len() == 0);
    }
}

proof fn lemma_no_slash_behind(s: Seq<char>)
    ensures
        last_part_start(s) <= s.len(),
        forall|i: int| last_part_start(s) <= i < s.len() ==> #[trigger] s[i] != '/',
    decreases s.len(),
{
    if s.len() > 0 && s.last() != '/' {
        lemma_no_slash_behind(s.drop_last());
        assert forall|i: int| last_part_start(s) <= i < s.len() implies #[trigger] s[i] != '/' by {
            if i < s.len() - 1 {
                assert(s.drop_last()[i] == s[i]);
            }
        }
    }
}

} // verus!
