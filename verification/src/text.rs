//! Text as sequences of characters: decimal numerals, hexadecimal digits,
//! fields separated by one character, and substring search.

use vstd::prelude::*;
use vstd::string::*;

verus! {

/// `String::push` appends one character to the end of the string.
pub assume_specification[ String::push ](s: &mut String, c: char)
    ensures
        final(s)@ == old(s)@.push(c),
;

/// The characters of `s`, one by one.
pub fn chars_of(s: &str) -> (v: Vec<char>)
    ensures
        v@ == s@,
{
    let mut v: Vec<char> = Vec::new();
    for c in it: s.chars()
        invariant
            v@ == it.seq().take(it.index() as int),
            it.seq() == s@,
    {
        v.push(c);
    }
    v
}

/// The string made of the characters of `v`, in order.
pub fn string_of(v: &Vec<char>) -> (s: String)
    ensures
        s@ == v@,
{
    let mut s = String::new();
    let mut i: usize = 0;
    while i < v.len()
        invariant
            i <= v.len(),
            s@ == v@.take(i as int),
        decreases v.len() - i,
    {
        s.push(v[i]);
        i += 1;
    }
    s
}

/// The text of a value that may be missing.
pub open spec fn opt_text(value: Option<String>) -> Option<Seq<char>> {
    match value {
        Some(s) => Some(s@),
        None => None,
    }
}

/// Whether two runs of characters are the same. Every position is looked at,
/// so the time taken does not tell where they first differ.
pub fn same_chars(a: &Vec<char>, b: &Vec<char>) -> (r: bool)
    ensures
        r == (a@ == b@),
{
    if a.len() != b.len() {
        return false;
    }
    let mut same: bool = true;
    let mut i: usize = 0;
    while i < a.len()
        invariant
            i <= a.len(),
            a.len() == b.len(),
            same == (a@.take(i as int) =~= b@.take(i as int)),
        decreases a.len() - i,
    {
        let here: bool = a[i] == b[i];
        proof {
            let a0 = a@.take(i as int);
            let b0 = b@.take(i as int);
            let a1 = a@.take(i + 1);
            let b1 = b@.take(i + 1);
            assert(a1 == a0.push(a@[i as int]));
            assert(b1 == b0.push(b@[i as int]));
            if a1 == b1 {
                assert(a1.drop_last() == a0);
                assert(b1.drop_last() == b0);
                assert(a1.last() == a@[i as int]);
            }
        }
        same = same && here;
        i += 1;
    }
    proof {
        assert(a@.take(a.len() as int) == a@);
        assert(b@.take(b.len() as int) == b@);
    }
    same
}

/// True of the ten decimal digits.
pub open spec fn is_digit(c: char) -> bool {
    '0' <= c <= '9'
}

/// The digit that stands for `d`, for `d` below ten.
pub open spec fn digit_char(d: nat) -> char
    recommends
        d < 10,
{
    (48 + d) as u8 as char
}

/// What a decimal digit counts for.
pub open spec fn digit_value(c: char) -> nat
    recommends
        is_digit(c),
{
    (c as u8 - 48) as nat
}

/// The decimal numeral of `n`, without leading zeros.
pub open spec fn decimal_text(n: nat) -> Seq<char>
    decreases n,
{
    if n < 10 {
        seq![digit_char(n)]
    } else {
        decimal_text(n / 10).push(digit_char(n % 10))
    }
}

/// True when `s` is made of decimal digits, at least one.
pub open spec fn is_decimal(s: Seq<char>) -> bool {
    s.len() > 0 && forall|i: int| 0 <= i < s.len() ==> is_digit(#[trigger] s[i])
}

/// The number that a run of decimal digits stands for.
pub open spec fn decimal_value(s: Seq<char>) -> nat
    decreases s.len(),
{
    if s.len() == 0 {
        0
    } else {
        decimal_value(s.drop_last()) * 10 + digit_value(s.last())
    }
}

/// A decimal numeral is made of digits, and reading it gives the number back.
pub proof fn lemma_decimal_round_trip(n: nat)
    ensures
        is_decimal(decimal_text(n)),
        decimal_value(decimal_text(n)) == n,
    decreases n,
{
    if n < 10 {
        let s = decimal_text(n);
        assert(s.drop_last() =~= Seq::<char>::empty());
        assert(decimal_value(s.drop_last()) == 0);
        assert(s.last() == digit_char(n));
    } else {
        lemma_decimal_round_trip(n / 10);
        let p = decimal_text(n / 10);
        let s = decimal_text(n);
        assert(s.drop_last() =~= p);
        assert(s.last() == digit_char(n % 10));
        assert forall|i: int| 0 <= i < s.len() implies is_digit(#[trigger] s[i]) by {
            if i < p.len() {
                assert(s[i] == p[i]);
            }
        }
    }
}

/// Reading a longer run of digits never gives less than reading its start.
pub proof fn lemma_decimal_value_grows(s: Seq<char>, k: int)
    requires
        0 <= k <= s.len(),
    ensures
        decimal_value(s.take(k)) <= decimal_value(s),
    decreases s.len(),
{
    if k == s.len() {
        assert(s.take(k) =~= s);
    } else {
        assert(s.drop_last().take(k) =~= s.take(k));
        lemma_decimal_value_grows(s.drop_last(), k);
    }
}

/// Appends the decimal numeral of `n` to `out`.
pub fn push_decimal(out: &mut Vec<char>, n: u128)
    ensures
        final(out)@ == old(out)@ + decimal_text(n as nat),
    decreases n,
{
    if n >= 10 {
        push_decimal(out, n / 10);
    }
    let d: u8 = (n % 10) as u8;
    out.push((48 + d) as char);
    proof {
        assert(out@ =~= old(out)@ + decimal_text(n as nat));
    }
}

/// Reads the decimal digits of `s` from position `start` to its end. Gives
/// the number when there is at least one character there, all are digits and
/// the number is at most `max`.
pub fn parse_decimal_from(s: &Vec<char>, start: usize, max: u128) -> (r: Option<u128>)
    requires
        start <= s.len(),
    ensures
        r == (if is_decimal(s@.skip(start as int)) && decimal_value(s@.skip(start as int)) <= max {
            Some(decimal_value(s@.skip(start as int)) as u128)
        } else {
            None
        }),
{
    let ghost t = s@.skip(start as int);
    if start == s.len() {
        return None;
    }
    let mut acc: u128 = 0;
    let mut i: usize = start;
    while i < s.len()
        invariant
            start <= i <= s.len(),
            t == s@.skip(start as int),
            acc == decimal_value(t.take(i - start)),
            acc <= max,
            forall|j: int| 0 <= j < i - start ==> is_digit(#[trigger] t[j]),
        decreases s.len() - i,
    {
        let c: char = s[i];
        proof {
            assert(t[i - start] == c);
            let t1 = t.take(i - start + 1);
            assert(t1.drop_last() =~= t.take(i - start));
            assert(t1.last() == c);
        }
        if !('0' <= c && c <= '9') {
            return None;
        }
        let d: u128 = (c as u8 - 48) as u128;
        if d > max || acc > (max - d) / 10 {
            proof {
                lemma_decimal_value_grows(t, i - start + 1);
            }
            return None;
        }
        acc = acc * 10 + d;
        i += 1;
    }
    proof {
        assert(t.take(t.len() as int) =~= t);
    }
    Some(acc)
}

/// The numeral of a whole number: a minus sign before the digits of a
/// negative one.
pub open spec fn signed_text(n: int) -> Seq<char> {
    if n < 0 {
        seq!['-'] + decimal_text((-n) as nat)
    } else {
        decimal_text(n as nat)
    }
}

/// What a numeral with an optional sign stands for: `+` or `-`, then digits.
pub open spec fn signed_value(s: Seq<char>) -> Option<int> {
    if s.len() > 0 && s[0] == '-' {
        if is_decimal(s.skip(1)) {
            Some(-(decimal_value(s.skip(1)) as int))
        } else {
            None
        }
    } else {
        unsigned_value(s)
    }
}

/// What a numeral that cannot be negative stands for: an optional `+`, then
/// digits.
pub open spec fn unsigned_value(s: Seq<char>) -> Option<int> {
    let digits = if s.len() > 0 && s[0] == '+' {
        s.skip(1)
    } else {
        s
    };
    if is_decimal(digits) {
        Some(decimal_value(digits) as int)
    } else {
        None
    }
}

/// Reading the numeral of a whole number gives the number back.
pub proof fn lemma_signed_round_trip(n: int)
    ensures
        signed_value(signed_text(n)) == Some(n),
{
    let s = signed_text(n);
    if n < 0 {
        let m = (-n) as nat;
        lemma_decimal_round_trip(m);
        assert(s.skip(1) =~= decimal_text(m));
        assert(s[0] == '-');
    } else {
        lemma_decimal_round_trip(n as nat);
        assert(is_digit(s[0]));
    }
}

/// Appends the numeral of `n` to `out`.
pub fn push_signed(out: &mut Vec<char>, n: i64)
    ensures
        final(out)@ == old(out)@ + signed_text(n as int),
{
    if n < 0 {
        out.push('-');
        let m: u128 = (-(n as i128)) as u128;
        push_decimal(out, m);
        proof {
            assert(out@ =~= old(out)@ + signed_text(n as int));
        }
    } else {
        push_decimal(out, n as u128);
    }
}

/// Reads a numeral with an optional sign. Gives the number when `s` is such a
/// numeral and the number fits.
pub fn parse_i64(s: &Vec<char>) -> (r: Option<i64>)
    ensures
        r == match signed_value(s@) {
            Some(v) => if i64::MIN <= v <= i64::MAX {
                Some(v as i64)
            } else {
                None
            },
            None => None,
        },
{
    if s.len() > 0 && s[0] == '-' {
        match parse_decimal_from(s, 1, 0x8000_0000_0000_0000) {
            Some(m) => Some((-(m as i128)) as i64),
            None => None,
        }
    } else {
        let start: usize = if s.len() > 0 && s[0] == '+' {
            1
        } else {
            0
        };
        proof {
            assert(s@.skip(0) =~= s@);
        }
        match parse_decimal_from(s, start, 0x7fff_ffff_ffff_ffff) {
            Some(m) => Some(m as i64),
            None => None,
        }
    }
}

/// Reads a numeral that cannot be negative. Gives the number when `s` is such
/// a numeral and the number is below 65536.
pub fn parse_u16(s: &Vec<char>) -> (r: Option<u16>)
    ensures
        r == match unsigned_value(s@) {
            Some(v) => if v <= u16::MAX {
                Some(v as u16)
            } else {
                None
            },
            None => None,
        },
{
    let start: usize = if s.len() > 0 && s[0] == '+' {
        1
    } else {
        0
    };
    proof {
        assert(s@.skip(0) =~= s@);
    }
    match parse_decimal_from(s, start, 0xffff) {
        Some(m) => Some(m as u16),
        None => None,
    }
}

/// The views of a run of character vectors.
pub open spec fn views(fields: Seq<Vec<char>>) -> Seq<Seq<char>> {
    Seq::new(fields.len(), |i: int| fields[i]@)
}

/// The fields of `s`, cut at every `sep`. There is always at least one field,
/// and a field may be empty.
pub open spec fn split(s: Seq<char>, sep: char) -> Seq<Seq<char>>
    decreases s.len(),
{
    if s.len() == 0 {
        seq![Seq::<char>::empty()]
    } else {
        let before = split(s.drop_last(), sep);
        if s.last() == sep {
            before.push(Seq::<char>::empty())
        } else {
            before.drop_last().push(before.last().push(s.last()))
        }
    }
}

/// The fields put together again, with `sep` between neighbours.
pub open spec fn join(fields: Seq<Seq<char>>, sep: char) -> Seq<char>
    decreases fields.len(),
{
    if fields.len() == 0 {
        Seq::<char>::empty()
    } else if fields.len() == 1 {
        fields[0]
    } else {
        join(fields.drop_last(), sep).push(sep) + fields.last()
    }
}

/// True when `c` occurs nowhere in `s`.
pub open spec fn free_of(s: Seq<char>, c: char) -> bool {
    forall|i: int| 0 <= i < s.len() ==> #[trigger] s[i] != c
}

/// Cutting always leaves at least one field.
pub proof fn lemma_split_nonempty(s: Seq<char>, sep: char)
    ensures
        split(s, sep).len() >= 1,
    decreases s.len(),
{
    if s.len() > 0 {
        lemma_split_nonempty(s.drop_last(), sep);
    }
}

/// Text without the separator, put behind `a`, only makes the last field of
/// `a` longer.
pub proof fn lemma_split_append(a: Seq<char>, b: Seq<char>, sep: char)
    requires
        free_of(b, sep),
    ensures
        split(a, sep).len() >= 1,
        split(a + b, sep) == split(a, sep).drop_last().push(split(a, sep).last() + b),
    decreases b.len(),
{
    lemma_split_nonempty(a, sep);
    let p = split(a, sep);
    if b.len() == 0 {
        assert(a + b =~= a);
        assert(p.last() + b =~= p.last());
        assert(p.drop_last().push(p.last()) =~= p);
    } else {
        let b0 = b.drop_last();
        assert(free_of(b0, sep)) by {
            assert forall|i: int| 0 <= i < b0.len() implies #[trigger] b0[i] != sep by {
                assert(b0[i] == b[i]);
            }
        }
        lemma_split_append(a, b0, sep);
        assert((a + b).drop_last() =~= a + b0);
        assert((a + b).last() == b.last());
        assert(b[b.len() - 1] != sep);
        let q = split(a + b0, sep);
        assert(q.last() == p.last() + b0);
        assert(q.drop_last() =~= p.drop_last());
        assert((p.last() + b0).push(b.last()) =~= p.last() + b);
    }
}

/// Fields that hold no separator come back unchanged when they are put
/// together and cut again.
pub proof fn lemma_split_join(fields: Seq<Seq<char>>, sep: char)
    requires
        fields.len() >= 1,
        forall|i: int| 0 <= i < fields.len() ==> free_of(#[trigger] fields[i], sep),
    ensures
        split(join(fields, sep), sep) == fields,
    decreases fields.len(),
{
    if fields.len() == 1 {
        let e = Seq::<char>::empty();
        lemma_split_append(e, fields[0], sep);
        assert(e + fields[0] =~= fields[0]);
        assert(split(e, sep) =~= seq![e]);
        assert(split(e, sep).drop_last().push(e + fields[0]) =~= fields);
    } else {
        let front = fields.drop_last();
        assert forall|i: int| 0 <= i < front.len() implies free_of(#[trigger] front[i], sep) by {
            assert(front[i] == fields[i]);
        }
        lemma_split_join(front, sep);
        let j = join(front, sep);
        let js = j.push(sep);
        assert(js.drop_last() =~= j);
        assert(js.last() == sep);
        assert(split(js, sep) == front.push(Seq::<char>::empty()));
        lemma_split_append(js, fields.last(), sep);
        assert(Seq::<char>::empty() + fields.last() =~= fields.last());
        assert(front.push(Seq::<char>::empty()).drop_last() =~= front);
        assert(front.push(fields.last()) =~= fields);
    }
}

/// Cuts `s` at every `sep`.
pub fn split_chars(s: &Vec<char>, sep: char) -> (fields: Vec<Vec<char>>)
    ensures
        views(fields@) == split(s@, sep),
{
    let mut fields: Vec<Vec<char>> = Vec::new();
    let mut cur: Vec<char> = Vec::new();
    let mut i: usize = 0;
    proof {
        assert(s@.take(0) =~= Seq::<char>::empty());
        assert(views(fields@).push(cur@) =~= split(s@.take(0), sep));
    }
    while i < s.len()
        invariant
            i <= s.len(),
            views(fields@).push(cur@) == split(s@.take(i as int), sep),
        decreases s.len() - i,
    {
        let c: char = s[i];
        let ghost before = views(fields@).push(cur@);
        proof {
            let t = s@.take(i + 1);
            assert(t.drop_last() =~= s@.take(i as int));
            assert(t.last() == c);
        }
        if c == sep {
            fields.push(cur);
            cur = Vec::new();
            proof {
                assert(views(fields@).push(cur@) =~= before.push(Seq::<char>::empty()));
            }
        } else {
            cur.push(c);
            proof {
                assert(views(fields@).push(cur@) =~= before.drop_last().push(
                    before.last().push(c),
                ));
            }
        }
        i += 1;
    }
    proof {
        assert(s@.take(s.len() as int) =~= s@);
        assert(views(fields@.push(cur)) =~= views(fields@).push(cur@));
    }
    fields.push(cur);
    fields
}

/// Appends the characters of `more` to `out`.
pub fn push_chars(out: &mut Vec<char>, more: &Vec<char>)
    ensures
        final(out)@ == old(out)@ + more@,
{
    let mut i: usize = 0;
    while i < more.len()
        invariant
            i <= more.len(),
            out@ == old(out)@ + more@.take(i as int),
        decreases more.len() - i,
    {
        out.push(more[i]);
        proof {
            assert(more@.take(i + 1) =~= more@.take(i as int).push(more@[i as int]));
            assert(out@ =~= old(out)@ + more@.take(i + 1));
        }
        i += 1;
    }
    proof {
        assert(more@.take(more.len() as int) =~= more@);
    }
}

/// The hexadecimal digit that stands for `d`, for `d` below sixteen, in lower
/// case.
pub open spec fn hex_digit(d: nat) -> char
    recommends
        d < 16,
{
    if d < 10 {
        (48 + d) as u8 as char
    } else {
        (87 + d) as u8 as char
    }
}

/// Two hexadecimal digits for each byte, the high half first.
pub open spec fn hex_text(bytes: Seq<u8>) -> Seq<char> {
    Seq::new(
        2 * bytes.len(),
        |i: int|
            if i % 2 == 0 {
                hex_digit((bytes[i / 2] / 16) as nat)
            } else {
                hex_digit((bytes[i / 2] % 16) as nat)
            },
    )
}

/// Appends the hexadecimal digits of `bytes` to `out`.
pub fn push_hex(out: &mut Vec<char>, bytes: &Vec<u8>)
    ensures
        final(out)@ == old(out)@ + hex_text(bytes@),
{
    let mut i: usize = 0;
    while i < bytes.len()
        invariant
            i <= bytes.len(),
            out@ == old(out)@ + hex_text(bytes@.take(i as int)),
        decreases bytes.len() - i,
    {
        let b: u8 = bytes[i];
        let hi: u8 = b / 16;
        let lo: u8 = b % 16;
        let ghost prev = out@;
        out.push(
            if hi < 10 {
                (48 + hi) as char
            } else {
                (87 + hi) as char
            },
        );
        out.push(
            if lo < 10 {
                (48 + lo) as char
            } else {
                (87 + lo) as char
            },
        );
        proof {
            let h0 = hex_text(bytes@.take(i as int));
            let h1 = hex_text(bytes@.take(i + 1));
            assert(h1 =~= h0.push(hex_digit(hi as nat)).push(hex_digit(lo as nat))) by {
                assert forall|k: int| 0 <= k < h1.len() implies h1[k] == h0.push(
                    hex_digit(hi as nat),
                ).push(hex_digit(lo as nat))[k] by {
                    if k < 2 * i {
                        assert(bytes@.take(i + 1)[k / 2] == bytes@.take(i as int)[k / 2]);
                    } else {
                        assert(k / 2 == i);
                    }
                }
            }
            assert(out@ =~= old(out)@ + h1);
        }
        i += 1;
    }
    proof {
        assert(bytes@.take(bytes.len() as int) =~= bytes@);
    }
}

/// True when `needle` stands in `hay` at position `i`.
pub open spec fn occurs_at(hay: Seq<char>, needle: Seq<char>, i: int) -> bool {
    0 <= i && i + needle.len() <= hay.len() && hay.subrange(i, i + needle.len()) == needle
}

/// True when `needle` stands somewhere in `hay`.
pub open spec fn contains_text(hay: Seq<char>, needle: Seq<char>) -> bool {
    exists|i: int| occurs_at(hay, needle, i)
}

/// Whether `needle` stands in `hay` at position `i`.
pub fn matches_at(hay: &Vec<char>, needle: &Vec<char>, i: usize) -> (r: bool)
    requires
        i + needle.len() <= hay.len(),
    ensures
        r == occurs_at(hay@, needle@, i as int),
{
    let mut j: usize = 0;
    while j < needle.len()
        invariant
            j <= needle.len(),
            i + needle.len() <= hay.len(),
            hay@.subrange(i as int, i + j) == needle@.take(j as int),
        decreases needle.len() - j,
    {
        if hay[i + j] != needle[j] {
            proof {
                let w = hay@.subrange(i as int, i + needle.len());
                assert(w[j as int] == hay@[i + j]);
            }
            return false;
        }
        proof {
            assert(hay@.subrange(i as int, i + j + 1) =~= hay@.subrange(i as int, i + j).push(
                hay@[i + j],
            ));
            assert(needle@.take(j + 1) =~= needle@.take(j as int).push(needle@[j as int]));
        }
        j += 1;
    }
    proof {
        assert(needle@.take(needle.len() as int) =~= needle@);
    }
    true
}

/// Whether `needle` stands somewhere in `hay`.
pub fn find_text(hay: &Vec<char>, needle: &Vec<char>) -> (r: bool)
    ensures
        r == contains_text(hay@, needle@),
{
    if needle.len() > hay.len() {
        return false;
    }
    let last: usize = hay.len() - needle.len();
    let mut i: usize = 0;
    while i <= last
        invariant
            i <= last + 1,
            last == hay.len() - needle.len(),
            needle.len() <= hay.len(),
            forall|k: int| 0 <= k < i ==> !occurs_at(hay@, needle@, k),
        decreases last + 1 - i,
    {
        if matches_at(hay, needle, i) {
            return true;
        }
        if i == last {
            return false;
        }
        i += 1;
    }
    false
}

} // verus!
