//! Small verified building blocks for text: character classes, decimal
//! rendering and parsing of integers, string comparison, joining and
//! splitting. The rest of the crate states its contracts over the spec
//! functions defined here.
use vstd::prelude::*;
use vstd::string::StrSliceExecFns;
use vstd::string::StringExecFns;

verus! {

/// Whether a character counts as alphanumeric for identifier purposes.
/// The result of `char::is_alphanumeric`, named only: the Unicode tables
/// behind it are not restated here.
pub uninterp spec fn char_alnum(c: char) -> bool;

/// Whether a character counts as numeric. The result of
/// `char::is_numeric`, named only.
pub uninterp spec fn char_numeric(c: char) -> bool;

/// Whether a character is whitespace. The result of
/// `char::is_whitespace`, named only.
pub uninterp spec fn char_whitespace(c: char) -> bool;

/// Relies on char::is_alphanumeric: the result depends on the character alone.
#[verifier::external_body]
pub(crate) fn char_is_alphanumeric(c: char) -> (r: bool)
    ensures
        r == char_alnum(c),
{
    c.is_alphanumeric()
}

/// Relies on char::is_numeric: the result depends on the character alone.
#[verifier::external_body]
pub(crate) fn char_is_numeric(c: char) -> (r: bool)
    ensures
        r == char_numeric(c),
{
    c.is_numeric()
}

/// Relies on char::is_whitespace: the result depends on the character alone.
#[verifier::external_body]
pub(crate) fn char_is_whitespace(c: char) -> (r: bool)
    ensures
        r == char_whitespace(c),
{
    c.is_whitespace()
}

/// Relies on String::push: appends the given character to the end of the string.
#[verifier::external_body]
pub(crate) fn push_char(s: &mut String, c: char)
    ensures
        final(s)@ == old(s)@.push(c),
{
    s.push(c)
}

/// Equality of two string slices, stated over their views.
pub(crate) fn str_eq(a: &str, b: &str) -> (r: bool)
    ensures
        r == (a@ == b@),
{
    let sa = a.to_owned();
    let sb = b.to_owned();
    sa == sb
}

pub open spec fn spec_digit_char(d: int) -> char {
    if d == 0 { '0' }
    else if d == 1 { '1' }
    else if d == 2 { '2' }
    else if d == 3 { '3' }
    else if d == 4 { '4' }
    else if d == 5 { '5' }
    else if d == 6 { '6' }
    else if d == 7 { '7' }
    else if d == 8 { '8' }
    else { '9' }
}

/// Decimal rendering of a natural number, most significant digit first.
pub open spec fn spec_dec_nat(n: nat) -> Seq<char>
    decreases n,
{
    if n < 10 {
        seq![spec_digit_char(n as int)]
    } else {
        spec_dec_nat(n / 10) + seq![spec_digit_char((n % 10) as int)]
    }
}

/// Decimal rendering of a signed number, with a leading minus sign.
pub open spec fn spec_dec_int(n: int) -> Seq<char> {
    if n < 0 {
        seq!['-'] + spec_dec_nat((-n) as nat)
    } else {
        spec_dec_nat(n as nat)
    }
}

fn digit_char(d: u32) -> (c: char)
    requires
        d < 10,
    ensures
        c == spec_digit_char(d as int),
{
    match d {
        0 => '0',
        1 => '1',
        2 => '2',
        3 => '3',
        4 => '4',
        5 => '5',
        6 => '6',
        7 => '7',
        8 => '8',
        _ => '9',
    }
}

fn u64_to_string(n: u64) -> (r: String)
    ensures
        r@ == spec_dec_nat(n as nat),
    decreases n,
{
    if n < 10 {
        let mut s = String::new();
        push_char(&mut s, digit_char((n % 10) as u32));
        assert(s@ =~= spec_dec_nat(n as nat));
        s
    } else {
        let mut s = u64_to_string(n / 10);
        push_char(&mut s, digit_char((n % 10) as u32));
        assert(s@ =~= spec_dec_nat(n as nat));
        s
    }
}

/// Decimal rendering of an `i64`, matching `spec_dec_int`.
pub fn i64_to_string(n: i64) -> (r: String)
    ensures
        r@ == spec_dec_int(n as int),
{
    if n < 0 {
        let mag: u64 = if n == i64::MIN {
            9223372036854775808u64
        } else {
            (-n) as u64
        };
        assert(mag as int == -(n as int));
        let mut s = String::new();
        push_char(&mut s, '-');
        let digits = u64_to_string(mag);
        s.append(digits.as_str());
        assert(s@ =~= spec_dec_int(n as int));
        s
    } else {
        u64_to_string(n as u64)
    }
}

pub open spec fn spec_is_ascii_digit(c: char) -> bool {
    48 <= c as int && c as int <= 57
}

pub open spec fn spec_digit_value(c: char) -> int {
    c as int - 48
}

pub open spec fn msg_int_empty() -> Seq<char> {
    "cannot parse integer from empty string"@
}

pub open spec fn msg_int_invalid() -> Seq<char> {
    "invalid digit found in string"@
}

pub open spec fn msg_int_pos_overflow() -> Seq<char> {
    "number too large to fit in target type"@
}

pub open spec fn msg_int_neg_overflow() -> Seq<char> {
    "number too small to fit in target type"@
}

/// One accumulation step per digit, left to right; the first problem wins,
/// as when `str::parse::<i32>` scans a string.
pub open spec fn spec_parse_digits(ds: Seq<char>, negative: bool, acc: int) -> Result<int, Seq<char>>
    decreases ds.len(),
{
    if ds.len() == 0 {
        Ok(if negative { -acc } else { acc })
    } else if !spec_is_ascii_digit(ds.first()) {
        Err(msg_int_invalid())
    } else {
        let acc2 = acc * 10 + spec_digit_value(ds.first());
        if !negative && acc2 > 0x7fff_ffff {
            Err(msg_int_pos_overflow())
        } else if negative && acc2 > 0x8000_0000 {
            Err(msg_int_neg_overflow())
        } else {
            spec_parse_digits(ds.drop_first(), negative, acc2)
        }
    }
}

/// What parsing a decimal string as an `i32` returns: the value on
/// success, and the usual message for an empty string, a stray character
/// or an out-of-range value.
pub open spec fn spec_parse_i32(s: Seq<char>) -> Result<int, Seq<char>> {
    if s.len() == 0 {
        Err(msg_int_empty())
    } else {
        let (negative, digits) = if s.first() == '-' {
            (true, s.drop_first())
        } else if s.first() == '+' {
            (false, s.drop_first())
        } else {
            (false, s)
        };
        if digits.len() == 0 {
            Err(msg_int_invalid())
        } else {
            spec_parse_digits(digits, negative, 0)
        }
    }
}

fn parse_digits(s: &str, from: usize, negative: bool, acc0: u64) -> (r: Result<i32, String>)
    requires
        from <= s@.len(),
        acc0 <= 0x8000_0000,
        !negative ==> acc0 <= 0x7fff_ffff,
    ensures
        (match r {
            Ok(v) => spec_parse_digits(s@.skip(from as int), negative, acc0 as int) == Ok::<int, Seq<char>>(v as int),
            Err(m) => spec_parse_digits(s@.skip(from as int), negative, acc0 as int) == Err::<int, Seq<char>>(m@),
        }),
    decreases s@.len() - from,
{
    let n = s.unicode_len();
    if from == n {
        assert(s@.skip(from as int).len() == 0);
        let v: i32 = if negative {
            if acc0 == 0x8000_0000 {
                i32::MIN
            } else {
                -(acc0 as i32)
            }
        } else {
            acc0 as i32
        };
        assert(v as int == (if negative { -(acc0 as int) } else { acc0 as int }));
        Ok(v)
    } else {
        let ghost ds = s@.skip(from as int);
        assert(ds.first() == s@[from as int]);
        let c = s.get_char(from);
        let u: u32 = c as u32;
        if u < 48 || u > 57 {
            return Err(msg_invalid_digit());
        }
        let d: u64 = (u - 48) as u64;
        assert(d as int == spec_digit_value(c));
        let acc2: u64 = acc0 * 10 + d;
        if !negative && acc2 > 0x7fff_ffff {
            return Err(msg_pos_overflow());
        }
        if negative && acc2 > 0x8000_0000 {
            return Err(msg_neg_overflow());
        }
        let r = parse_digits(s, from + 1, negative, acc2);
        assert(s@.skip(from as int + 1) =~= ds.drop_first());
        r
    }
}

fn msg_invalid_digit() -> (r: String)
    ensures
        r@ == msg_int_invalid(),
{
    String::from_str("invalid digit found in string")
}

fn msg_pos_overflow() -> (r: String)
    ensures
        r@ == msg_int_pos_overflow(),
{
    String::from_str("number too large to fit in target type")
}

fn msg_neg_overflow() -> (r: String)
    ensures
        r@ == msg_int_neg_overflow(),
{
    String::from_str("number too small to fit in target type")
}

/// Parses a decimal string as an `i32`, exactly as `spec_parse_i32` says.
pub fn parse_i32(s: &str) -> (r: Result<i32, String>)
    ensures
        (match r {
            Ok(v) => spec_parse_i32(s@) == Ok::<int, Seq<char>>(v as int),
            Err(m) => spec_parse_i32(s@) == Err::<int, Seq<char>>(m@),
        }),
{
    let n = s.unicode_len();
    if n == 0 {
        return Err(String::from_str("cannot parse integer from empty string"));
    }
    let first = s.get_char(0);
    let (negative, start): (bool, usize) = if first == '-' {
        (true, 1)
    } else if first == '+' {
        (false, 1)
    } else {
        (false, 0)
    };
    if start == n {
        assert(s@.drop_first().len() == 0);
        return Err(msg_invalid_digit());
    }
    proof {
        if start == 1 {
            assert(s@.skip(1) =~= s@.drop_first());
        } else {
            assert(s@.skip(0) =~= s@);
        }
    }
    parse_digits(s, start, negative, 0)
}

/// `parts.join(sep)`: the parts in order with the separator between
/// neighbours.
pub open spec fn spec_join(parts: Seq<Seq<char>>, sep: Seq<char>) -> Seq<char>
    decreases parts.len(),
{
    if parts.len() == 0 {
        Seq::empty()
    } else if parts.len() == 1 {
        parts.first()
    } else {
        parts.first() + sep + spec_join(parts.drop_first(), sep)
    }
}

/// Extending a joined list by one part appends a separator (when the list
/// was not empty) and the part.
pub proof fn lemma_join_push(a: Seq<Seq<char>>, x: Seq<char>, sep: Seq<char>)
    ensures
        spec_join(a.push(x), sep) == (if a.len() == 0 { x } else { spec_join(a, sep) + sep + x }),
    decreases a.len(),
{
    if a.len() == 0 {
        assert(a.push(x).len() == 1);
        assert(a.push(x).first() == x);
    } else {
        lemma_join_push(a.drop_first(), x, sep);
        assert(a.push(x).drop_first() =~= a.drop_first().push(x));
        assert(a.push(x).first() == a.first());
        if a.len() == 1 {
            assert(spec_join(a, sep) == a.first());
            assert(spec_join(a.push(x), sep) == a.first() + sep + spec_join(a.drop_first().push(x), sep));
            assert(spec_join(a.drop_first().push(x), sep) == x);
        } else {
            assert(spec_join(a.push(x), sep) == a.first() + sep + spec_join(a.drop_first().push(x), sep));
            assert(spec_join(a.drop_first().push(x), sep) == spec_join(a.drop_first(), sep) + sep + x);
            assert(a.first() + sep + (spec_join(a.drop_first(), sep) + sep + x) =~= (a.first() + sep + spec_join(a.drop_first(), sep)) + sep + x);
        }
    }
}

/// Joins strings with a separator, exactly as `spec_join` says.
pub fn join_strings(parts: &Vec<String>, sep: &str) -> (r: String)
    ensures
        r@ == spec_join(parts.deep_view(), sep@),
{
    let mut out = String::new();
    let mut i: usize = 0;
    while i < parts.len()
        invariant
            i <= parts.len(),
            out@ == spec_join(parts.deep_view().take(i as int), sep@),
        decreases parts.len() - i,
    {
        if i > 0 {
            out.append(sep);
        }
        out.append(parts[i].as_str());
        proof {
            let dv = parts.deep_view();
            assert(dv[i as int] == parts@[i as int]@);
            lemma_join_push(dv.take(i as int), dv[i as int], sep@);
            assert(dv.take(i as int).push(dv[i as int]) =~= dv.take(i as int + 1));
        }
        i += 1;
    }
    proof {
        assert(parts.deep_view().take(parts@.len() as int) =~= parts.deep_view());
    }
    out
}

/// `s.split(c)`: the pieces between occurrences of `c`, in order. An
/// empty string gives one empty piece, and a trailing `c` a trailing
/// empty piece, as with `str::split`.
pub open spec fn spec_split_char(s: Seq<char>, c: char) -> Seq<Seq<char>>
    decreases s.len(),
{
    if s.len() == 0 {
        seq![Seq::<char>::empty()]
    } else if s.first() == c {
        seq![Seq::<char>::empty()] + spec_split_char(s.drop_first(), c)
    } else {
        let rest = spec_split_char(s.drop_first(), c);
        seq![seq![s.first()] + rest.first()] + rest.drop_first()
    }
}

pub proof fn lemma_split_char_nonempty(s: Seq<char>, c: char)
    ensures
        spec_split_char(s, c).len() >= 1,
    decreases s.len(),
{
    if s.len() != 0 {
        lemma_split_char_nonempty(s.drop_first(), c);
    }
}

/// Splits a string on a character, exactly as `spec_split_char` says.
pub fn split_string_char(s: &str, c: char) -> (r: Vec<String>)
    ensures
        r.deep_view() == spec_split_char(s@, c),
{
    let n = s.unicode_len();
    let mut done: Vec<String> = Vec::new();
    let mut cur = String::new();
    let mut i: usize = 0;
    proof {
        assert(s@.skip(0) =~= s@);
        lemma_split_char_nonempty(s@, c);
        let tail = spec_split_char(s@, c);
        assert(cur@ + tail.first() =~= tail.first());
        assert(done.deep_view() =~= Seq::<Seq<char>>::empty());
        assert(done.deep_view() + seq![tail.first()] + tail.drop_first() =~= seq![tail.first()] + tail.drop_first());
        assert(seq![tail.first()] + tail.drop_first() =~= tail);
    }
    while i < n
        invariant
            i <= n,
            n == s@.len(),
            ({
                let tail = spec_split_char(s@.skip(i as int), c);
                spec_split_char(s@, c) == done.deep_view() + seq![cur@ + tail.first()] + tail.drop_first()
            }),
        decreases n - i,
    {
        let ghost pre_done = done.deep_view();
        let ghost pre_cur = cur@;
        let ghost tail = spec_split_char(s@.skip(i as int), c);
        let ghost tail2 = spec_split_char(s@.skip(i as int + 1), c);
        proof {
            assert(s@.skip(i as int).first() == s@[i as int]);
            assert(s@.skip(i as int).drop_first() =~= s@.skip(i as int + 1));
            lemma_split_char_nonempty(s@.skip(i as int + 1), c);
        }
        let x = s.get_char(i);
        if x == c {
            done.push(cur);
            cur = String::new();
            proof {
                assert(tail == seq![Seq::<char>::empty()] + tail2);
                assert(tail.first() =~= Seq::<char>::empty());
                assert(tail.drop_first() =~= tail2);
                assert(done.deep_view() =~= pre_done.push(pre_cur));
                assert(pre_done + seq![pre_cur + tail.first()] + tail.drop_first()
                    =~= done.deep_view() + seq![cur@ + tail2.first()] + tail2.drop_first());
            }
        } else {
            push_char(&mut cur, x);
            proof {
                assert(tail == seq![seq![x] + tail2.first()] + tail2.drop_first());
                assert(tail.first() == seq![x] + tail2.first());
                assert(tail.drop_first() =~= tail2.drop_first());
                assert(pre_cur + (seq![x] + tail2.first()) =~= cur@ + tail2.first());
                assert(pre_done + seq![pre_cur + tail.first()] + tail.drop_first()
                    =~= done.deep_view() + seq![cur@ + tail2.first()] + tail2.drop_first());
            }
        }
        i += 1;
    }
    proof {
        assert(s@.skip(n as int).len() == 0);
        let tail = spec_split_char(s@.skip(n as int), c);
        assert(tail == seq![Seq::<char>::empty()]);
        assert(tail.first() =~= Seq::<char>::empty());
        assert(cur@ + tail.first() =~= cur@);
        assert(tail.drop_first() =~= Seq::<Seq<char>>::empty());
    }
    let ghost pre_done = done.deep_view();
    let ghost pre_cur = cur@;
    done.push(cur);
    proof {
        assert(done.deep_view() =~= pre_done.push(pre_cur));
        assert(pre_done + seq![pre_cur] + Seq::<Seq<char>>::empty() =~= pre_done.push(pre_cur));
    }
    done
}

/// Whether `prefix` is a prefix of `s`, stated over the views.
pub fn str_starts_with(s: &str, prefix: &str) -> (r: bool)
    ensures
        r == prefix@.is_prefix_of(s@),
{
    let n = s.unicode_len();
    let p = prefix.unicode_len();
    if p > n {
        return false;
    }
    let mut i: usize = 0;
    while i < p
        invariant
            i <= p,
            p <= n,
            n == s@.len(),
            p == prefix@.len(),
            forall|j: int| 0 <= j < i ==> prefix@[j] == s@[j],
        decreases p - i,
    {
        if s.get_char(i) != prefix.get_char(i) {
            assert(!prefix@.is_prefix_of(s@));
            return false;
        }
        i += 1;
    }
    proof {
        assert(prefix@ =~= s@.subrange(0, p as int));
    }
    true
}

/// Whether every character of the string is whitespace.
pub open spec fn spec_blank(s: Seq<char>) -> bool {
    forall|i: int| 0 <= i < s.len() ==> char_whitespace(s[i])
}

/// Whether the string is empty or all whitespace, as `line.trim().is_empty()`
/// reports it.
pub fn str_is_blank(s: &str) -> (r: bool)
    ensures
        r == spec_blank(s@),
{
    let n = s.unicode_len();
    let mut i: usize = 0;
    while i < n
        invariant
            i <= n,
            n == s@.len(),
            forall|j: int| 0 <= j < i ==> char_whitespace(s@[j]),
        decreases n - i,
    {
        if !char_is_whitespace(s.get_char(i)) {
            return false;
        }
        i += 1;
    }
    true
}

} // verus!
