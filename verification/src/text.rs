//! Character-level helpers shared by the parsers and formatters.

use vstd::prelude::*;
use vstd::string::StrSliceExecFns;
use vstd::string::StringExecFns;

verus! {

/// Decodes a string slice into its sequence of characters.
pub fn chars_of(s: &str) -> (res: Vec<char>)
    ensures
        res@ == s@,
{
    let mut out: Vec<char> = Vec::new();
    for c in it: s.chars()
        invariant
            out@ == it.seq().take(it.index()),
            it.seq() == s@,
    {
        out.push(c);
    }
    out
}

/// `t` occurs in `s` at position `i`.
pub open spec fn has_tag(s: Seq<char>, i: int, t: Seq<char>) -> bool {
    0 <= i && i + t.len() <= s.len() && s.subrange(i, i + t.len()) == t
}

/// Whether the text `t` occurs in `s` at position `i`.
pub fn match_tag(s: &Vec<char>, i: usize, t: &str) -> (res: bool)
    ensures
        res == has_tag(s@, i as int, t@),
        s@.len() <= usize::MAX,
{
    let n = t.unicode_len();
    if i > s.len() || n > s.len() - i {
        return false;
    }
    let mut k: usize = 0;
    while k < n
        invariant
            0 <= k <= n,
            n == t@.len(),
            i + n <= s.len(),
            forall|m: int| 0 <= m < k ==> s@[i + m] == t@[m],
        decreases n - k,
    {
        if s[i + k] != t.get_char(k) {
            assert(s@.subrange(i as int, i + n)[k as int] != t@[k as int]);
            return false;
        }
        k += 1;
    }
    assert(s@.subrange(i as int, i + n) =~= t@);
    true
}

/// The characters of `input` from position `from` up to `to`, as an owned string.
pub fn substring(input: &str, from: usize, to: usize) -> (res: String)
    requires
        from <= to <= input@.len(),
    ensures
        res@ == input@.subrange(from as int, to as int),
{
    input.substring_char(from, to).to_owned()
}


/// `s` ends with `t`.
pub open spec fn spec_ends_with(s: Seq<char>, t: Seq<char>) -> bool {
    t.len() <= s.len() && s.subrange(s.len() - t.len(), s.len() as int) == t
}

/// Whether `s` ends with `t`.
pub fn ends_with(s: &str, t: &str) -> (res: bool)
    ensures
        res == spec_ends_with(s@, t@),
{
    let cs = chars_of(s);
    let n = t.unicode_len();
    if n > cs.len() {
        false
    } else {
        let r = match_tag(&cs, cs.len() - n, t);
        assert(r == spec_ends_with(s@, t@));
        r
    }
}

/// `t` occurs somewhere in `s`.
pub open spec fn spec_contains(s: Seq<char>, t: Seq<char>) -> bool {
    exists|i: int| has_tag(s, i, t)
}

/// Whether `t` occurs somewhere in `s`.
pub fn contains(s: &str, t: &str) -> (res: bool)
    ensures
        res == spec_contains(s@, t@),
{
    let cs = chars_of(s);
    let mut i: usize = 0;
    while i < cs.len()
        invariant
            cs@ == s@,
            i <= cs.len(),
            forall|j: int| 0 <= j < i ==> !has_tag(s@, j, t@),
        decreases cs.len() - i,
    {
        if match_tag(&cs, i, t) {
            return true;
        }
        i += 1;
    }
    if match_tag(&cs, i, t) {
        return true;
    }
    assert forall|j: int| !has_tag(s@, j, t@) by {
        if 0 <= j <= i {
        } else if j > i {
            assert(j > s@.len());
        }
    }
    false
}

/// The character of a decimal digit.
pub open spec fn digit_char(d: int) -> char {
    (d + 48) as char
}

/// Decimal notation of a natural number, without leading zeros.
pub open spec fn nat_decimal(n: nat) -> Seq<char>
    decreases n,
{
    if n < 10 {
        seq![digit_char(n as int)]
    } else {
        nat_decimal(n / 10).push(digit_char((n % 10) as int))
    }
}

/// Decimal notation of an integer, with a leading `-` when it is negative.
pub open spec fn int_decimal(n: int) -> Seq<char> {
    if n < 0 {
        seq!['-'] + nat_decimal((-n) as nat)
    } else {
        nat_decimal(n as nat)
    }
}

fn digit_str(d: u64) -> (res: &'static str)
    requires
        d < 10,
    ensures
        res@ == seq![digit_char(d as int)],
{
    proof {
        reveal_strlit("0");
        reveal_strlit("1");
        reveal_strlit("2");
        reveal_strlit("3");
        reveal_strlit("4");
        reveal_strlit("5");
        reveal_strlit("6");
        reveal_strlit("7");
        reveal_strlit("8");
        reveal_strlit("9");
    }
    match d {
        0 => "0",
        1 => "1",
        2 => "2",
        3 => "3",
        4 => "4",
        5 => "5",
        6 => "6",
        7 => "7",
        8 => "8",
        _ => "9",
    }
}

/// Appends the decimal notation of `n`.
pub fn push_decimal(s: &mut String, n: u64)
    ensures
        final(s)@ == old(s)@ + nat_decimal(n as nat),
    decreases n,
{
    if n < 10 {
        s.append(digit_str(n));
    } else {
        push_decimal(s, n / 10);
        s.append(digit_str(n % 10));
        assert(nat_decimal(n as nat) == nat_decimal((n / 10) as nat).push(digit_char((n % 10) as int)));
        assert(final(s)@ =~= old(s)@ + nat_decimal(n as nat)) by {
            assert(old(s)@ + nat_decimal((n / 10) as nat) + seq![digit_char((n % 10) as int)]
                =~= old(s)@ + nat_decimal(n as nat));
        }
    }
}

/// The decimal notation of an `i32`, as `format!("{}", n)` writes it.
pub fn i32_to_decimal(n: i32) -> (res: String)
    ensures
        res@ == int_decimal(n as int),
{
    let mut s = String::new();
    if n < 0 {
        s.append("-");
        proof {
            reveal_strlit("-");
        }
        let m: i64 = -(n as i64);
        push_decimal(&mut s, m as u64);
        assert(s@ =~= int_decimal(n as int));
    } else {
        push_decimal(&mut s, n as u64);
        assert(s@ =~= int_decimal(n as int));
    }
    s
}

/// Value of a string of decimal digits.
pub open spec fn digits_value(s: Seq<char>) -> int
    decreases s.len(),
{
    if s.len() == 0 {
        0
    } else {
        digits_value(s.drop_last()) * 10 + (s.last() as int - 48)
    }
}

/// Every character is a decimal digit.
pub open spec fn all_digits(s: Seq<char>) -> bool {
    forall|i: int| 0 <= i < s.len() ==> '0' <= #[trigger] s[i] <= '9'
}

/// How `str::parse::<i32>` reads a string: an optional sign, then at least one
/// decimal digit and nothing else, with a value in range.
pub open spec fn spec_parse_i32(s: Seq<char>) -> Option<i32> {
    let neg = s.len() > 0 && s[0] == '-';
    let body = if s.len() > 0 && (s[0] == '-' || s[0] == '+') { s.drop_first() } else { s };
    if body.len() == 0 || !all_digits(body) {
        None
    } else {
        let v = if neg { -digits_value(body) } else { digits_value(body) };
        if i32::MIN <= v <= i32::MAX { Some(v as i32) } else { None }
    }
}

/// A natural number's decimal notation is digits, the first of them a digit,
/// and reads back as the number.
pub proof fn lemma_nat_decimal_reads_back(n: nat)
    ensures
        nat_decimal(n).len() > 0,
        all_digits(nat_decimal(n)),
        digits_value(nat_decimal(n)) == n,
    decreases n,
{
    let d = nat_decimal(n);
    if n < 10 {
        assert(d.drop_last() =~= Seq::<char>::empty());
        assert(digit_char(n as int) as int == n + 48);
        assert(digits_value(d.drop_last()) == 0);
        assert(digits_value(d) == digits_value(d.drop_last()) * 10 + (d.last() as int - 48));
    } else {
        lemma_nat_decimal_reads_back(n / 10);
        let p = nat_decimal(n / 10);
        let r = (n % 10) as int;
        assert(digit_char(r) as int == r + 48);
        assert(d.drop_last() =~= p);
        assert(d.last() == digit_char(r));
        assert forall|i: int| 0 <= i < d.len() implies '0' <= #[trigger] d[i] <= '9' by {
            if i < p.len() {
                assert(d[i] == p[i]);
            }
        }
        assert(digits_value(d) == digits_value(p) * 10 + (d.last() as int - 48));
        assert(digits_value(p) * 10 == (n / 10) * 10);
        assert(n == (n / 10) * 10 + n % 10);
    }
}

/// Reading an `i32`'s decimal notation gives the number back.
pub proof fn lemma_i32_decimal_reads_back(n: i32)
    ensures
        spec_parse_i32(int_decimal(n as int)) == Some(n),
{
    if n < 0 {
        let m = (-(n as int)) as nat;
        lemma_nat_decimal_reads_back(m);
        let s = int_decimal(n as int);
        assert(s.drop_first() =~= nat_decimal(m));
    } else {
        lemma_nat_decimal_reads_back(n as nat);
        let s = nat_decimal(n as nat);
        assert('0' <= s[0] <= '9');
    }
}

/// Reads a decimal `i32` as `str::parse::<i32>` does.
pub fn parse_i32(s: &str) -> (res: Option<i32>)
    ensures
        res == spec_parse_i32(s@),
{
    let cs = chars_of(s);
    let neg = cs.len() > 0 && cs[0] == '-';
    let start: usize = if cs.len() > 0 && (cs[0] == '-' || cs[0] == '+') { 1 } else { 0 };
    let ghost body = if s@.len() > 0 && (s@[0] == '-' || s@[0] == '+') {
        s@.drop_first()
    } else {
        s@
    };
    assert(body =~= cs@.subrange(start as int, cs@.len() as int));
    if start == cs.len() {
        return None;
    }
    let cap: i64 = 2147483649;
    let mut acc: i64 = 0;
    let mut k: usize = start;
    while k < cs.len()
        invariant
            cs@ == s@,
            body == (if s@.len() > 0 && (s@[0] == '-' || s@[0] == '+') {
                s@.drop_first()
            } else {
                s@
            }),
            neg == (s@.len() > 0 && s@[0] == '-'),
            start <= k <= cs.len(),
            body =~= cs@.subrange(start as int, cs@.len() as int),
            all_digits(body.take(k - start)),
            acc == if digits_value(body.take(k - start)) < cap {
                digits_value(body.take(k - start))
            } else {
                cap as int
            },
            cap == 2147483649,
            acc >= 0,
        decreases cs.len() - k,
    {
        let c = cs[k];
        if !('0' <= c && c <= '9') {
            assert(!all_digits(body)) by {
                assert(body[k - start] == c);
            }
            return None;
        }
        let d: i64 = (c as u32 - 48) as i64;
        let ghost prev = body.take(k - start);
        let ghost next = body.take(k + 1 - start);
        assert(next.drop_last() =~= prev);
        assert(next.last() == c);
        assert(digits_value(next) == digits_value(prev) * 10 + d);
        let t = acc * 10 + d;
        acc = if t < cap { t } else { cap };
        assert(all_digits(next)) by {
            assert forall|i: int| 0 <= i < next.len() implies '0' <= #[trigger] next[i] <= '9' by {
                if i < prev.len() {
                    assert(next[i] == prev[i]);
                }
            }
        }
        k += 1;
    }
    assert(body.take(k - start) =~= body);
    let v: i64 = if neg { -acc } else { acc };
    if v < -2147483648 || v > 2147483647 {
        None
    } else {
        Some(v as i32)
    }
}


/// How `str::parse::<u64>` reads a string: an optional `+`, then at least one
/// decimal digit and nothing else, with a value that fits.
pub open spec fn spec_parse_u64(s: Seq<char>) -> Option<u64> {
    let body = if s.len() > 0 && s[0] == '+' { s.drop_first() } else { s };
    if body.len() == 0 || !all_digits(body) || digits_value(body) > u64::MAX {
        None
    } else {
        Some(digits_value(body) as u64)
    }
}

/// Reads a decimal `u64` as `str::parse::<u64>` does.
pub fn parse_u64(s: &str) -> (res: Option<u64>)
    ensures
        res == spec_parse_u64(s@),
{
    let cs = chars_of(s);
    let start: usize = if cs.len() > 0 && cs[0] == '+' { 1 } else { 0 };
    let ghost body = if s@.len() > 0 && s@[0] == '+' { s@.drop_first() } else { s@ };
    assert(body =~= cs@.subrange(start as int, cs@.len() as int));
    if start == cs.len() {
        return None;
    }
    let cap: u128 = 18446744073709551616;
    let mut acc: u128 = 0;
    let mut k: usize = start;
    while k < cs.len()
        invariant
            cs@ == s@,
            body == (if s@.len() > 0 && s@[0] == '+' { s@.drop_first() } else { s@ }),
            start <= k <= cs.len(),
            body =~= cs@.subrange(start as int, cs@.len() as int),
            all_digits(body.take(k - start)),
            digits_value(body.take(k - start)) >= 0,
            acc == if digits_value(body.take(k - start)) < cap {
                digits_value(body.take(k - start))
            } else {
                cap as int
            },
            cap == 18446744073709551616,
        decreases cs.len() - k,
    {
        let c = cs[k];
        if !('0' <= c && c <= '9') {
            assert(!all_digits(body)) by {
                assert(body[k - start] == c);
            }
            return None;
        }
        let d: u128 = (c as u32 - 48) as u128;
        let ghost prev = body.take(k - start);
        let ghost next = body.take(k + 1 - start);
        assert(next.drop_last() =~= prev);
        assert(next.last() == c);
        assert(digits_value(next) == digits_value(prev) * 10 + d);
        let t = acc * 10 + d;
        acc = if t < cap { t } else { cap };
        assert(all_digits(next)) by {
            assert forall|i: int| 0 <= i < next.len() implies '0' <= #[trigger] next[i] <= '9' by {
                if i < prev.len() {
                    assert(next[i] == prev[i]);
                }
            }
        }
        k += 1;
    }
    assert(body.take(k - start) =~= body);
    if acc >= cap {
        None
    } else {
        Some(acc as u64)
    }
}

/// `s` with each occurrence of `pat` replaced by `rep`, the occurrences
/// taken from the left without overlapping, as `str::replace` does.
pub open spec fn spec_replace(s: Seq<char>, pat: Seq<char>, rep: Seq<char>) -> Seq<char>
    decreases s.len(),
{
    if s.len() == 0 {
        seq![]
    } else if pat.len() > 0 && pat.len() <= s.len() && s.take(pat.len() as int) == pat {
        rep + spec_replace(s.skip(pat.len() as int), pat, rep)
    } else {
        seq![s[0]] + spec_replace(s.skip(1), pat, rep)
    }
}

/// Replaces each occurrence of a non-empty `pat` in `s` by `rep`.
pub fn replace_all(s: &str, pat: &str, rep: &str) -> (res: String)
    requires
        pat@.len() > 0,
    ensures
        res@ == spec_replace(s@, pat@, rep@),
{
    let cs = chars_of(s);
    let n = pat.unicode_len();
    let mut out = String::new();
    let mut i: usize = 0;
    assert(cs@.skip(0) =~= cs@);
    while i < cs.len()
        invariant
            cs@ == s@,
            n == pat@.len(),
            n > 0,
            i <= cs@.len(),
            out@ + spec_replace(cs@.skip(i as int), pat@, rep@) == spec_replace(s@, pat@, rep@),
        decreases cs.len() - i,
    {
        let ghost rest = cs@.skip(i as int);
        if match_tag(&cs, i, pat) {
            assert(rest.take(n as int) =~= cs@.subrange(i as int, i + n));
            assert(rest.skip(n as int) =~= cs@.skip(i + n));
            let ghost before = out@;
            out.append(rep);
            assert(out@ + spec_replace(cs@.skip(i + n), pat@, rep@) =~= before + spec_replace(
                rest,
                pat@,
                rep@,
            ));
            i = i + n;
        } else {
            assert(rest.len() > 0);
            assert(!(n <= rest.len() && rest.take(n as int) == pat@)) by {
                if n <= rest.len() && rest.take(n as int) == pat@ {
                    assert(rest.take(n as int) =~= cs@.subrange(i as int, i + n));
                }
            }
            assert(rest.skip(1) =~= cs@.skip(i + 1));
            assert(rest[0] == cs@[i as int]);
            let ghost before = out@;
            let one = substring(s, i, i + 1);
            assert(one@ =~= seq![cs@[i as int]]);
            out.append(one.as_str());
            assert(out@ + spec_replace(cs@.skip(i + 1), pat@, rep@) =~= before + spec_replace(
                rest,
                pat@,
                rep@,
            ));
            i = i + 1;
        }
    }
    assert(cs@.skip(i as int) =~= Seq::<char>::empty());
    assert(out@ + spec_replace(Seq::<char>::empty(), pat@, rep@) =~= out@);
    out
}

/// Whether two strings are equal.
pub fn str_eq(a: &str, b: &str) -> (res: bool)
    ensures
        res == (a@ == b@),
{
    String::from_str(a) == String::from_str(b)
}


/// The pieces of `s` between occurrences of `c`, as `str::split` gives them
/// for a character pattern: one more piece than there are occurrences.
pub open spec fn spec_split(s: Seq<char>, c: char) -> Seq<Seq<char>>
    decreases s.len(),
{
    if s.len() == 0 {
        seq![seq![]]
    } else {
        let rest = spec_split(s.drop_last(), c);
        if s.last() == c {
            rest.push(seq![])
        } else {
            rest.update(rest.len() - 1, rest.last().push(s.last()))
        }
    }
}

pub proof fn lemma_split_nonempty(s: Seq<char>, c: char)
    ensures
        spec_split(s, c).len() >= 1,
    decreases s.len(),
{
    if s.len() > 0 {
        lemma_split_nonempty(s.drop_last(), c);
    }
}

/// A text that holds `c` splits at `c` into at least two pieces.
pub proof fn lemma_split_at_least_two(s: Seq<char>, c: char)
    requires
        spec_contains(s, seq![c]),
    ensures
        spec_split(s, c).len() >= 2,
    decreases s.len(),
{
    let i = choose|i: int| has_tag(s, i, seq![c]);
    assert(s.subrange(i, i + 1)[0] == s[i]);
    if i == s.len() - 1 {
        assert(s.last() == c);
        lemma_split_nonempty(s.drop_last(), c);
    } else {
        assert(s.drop_last().subrange(i, i + 1) =~= s.subrange(i, i + 1));
        assert(has_tag(s.drop_last(), i, seq![c]));
        lemma_split_at_least_two(s.drop_last(), c);
    }
}

/// Splits `s` at every occurrence of `c`.
pub fn split_on(s: &str, c: char) -> (res: Vec<String>)
    ensures
        res@.map_values(|p: String| p@) == spec_split(s@, c),
{
    let cs = chars_of(s);
    let mut done: Vec<String> = Vec::new();
    let mut start: usize = 0;
    assert(s@.subrange(0, 0) =~= seq![]);
    assert(done@.map_values(|p: String| p@).push(s@.subrange(0, 0)) =~~= spec_split(s@.take(0), c));
    for i in 0..cs.len()
        invariant
            cs@ == s@,
            start <= i,
            done@.map_values(|p: String| p@).push(s@.subrange(start as int, i as int)) == spec_split(
                s@.take(i as int),
                c,
            ),
    {
        proof {
            lemma_split_nonempty(s@.take(i as int), c);
        }
        assert(s@.take(i + 1).drop_last() =~= s@.take(i as int));
        assert(s@.take(i + 1).last() == cs@[i as int]);
        if cs[i] == c {
            let piece = substring(s, start, i);
            let ghost before = done@;
            done.push(piece);
            start = i + 1;
            assert(done@.map_values(|p: String| p@) =~= before.map_values(|p: String| p@).push(
                piece@,
            ));
            assert(s@.subrange(start as int, i + 1) =~= seq![]);
        } else {
            assert(s@.subrange(start as int, i + 1) =~= s@.subrange(start as int, i as int).push(
                cs@[i as int],
            ));
        }
    }
    assert(s@.take(cs.len() as int) =~= s@);
    let last = substring(s, start, cs.len());
    let ghost before = done@;
    done.push(last);
    assert(done@.map_values(|p: String| p@) =~= before.map_values(|p: String| p@).push(last@));
    done
}

/// `s` starts with `t`.
pub open spec fn spec_starts_with(s: Seq<char>, t: Seq<char>) -> bool {
    t.len() <= s.len() && s.subrange(0, t.len() as int) == t
}

/// Whether `s` starts with `t`.
pub fn starts_with(s: &str, t: &str) -> (res: bool)
    ensures
        res == spec_starts_with(s@, t@),
{
    let cs = chars_of(s);
    match_tag(&cs, 0, t)
}


/// The text of an optional string.
pub open spec fn opt_view(o: Option<String>) -> Option<Seq<char>> {
    match o {
        Some(s) => Some(s@),
        None => None,
    }
}

/// Path pieces with the trailing ones that are empty or `.` dropped.
pub open spec fn trim_trailing_curdirs(segs: Seq<Seq<char>>) -> Seq<Seq<char>>
    decreases segs.len(),
{
    if segs.len() > 0 && (segs.last().len() == 0 || segs.last() == seq!['.']) {
        trim_trailing_curdirs(segs.drop_last())
    } else {
        segs
    }
}

/// The final component of a `/`-separated path, as `Path::file_name` gives
/// it: trailing separators and `.` components do not count, and there is none
/// when the path ends in `..` or has no component left.
pub open spec fn spec_file_name(p: Seq<char>) -> Option<Seq<char>> {
    let t = trim_trailing_curdirs(spec_split(p, '/'));
    if t.len() == 0 || t.last() == seq!['.', '.'] {
        None
    } else {
        Some(t.last())
    }
}

/// The final component of a path.
pub fn file_name(p: &str) -> (res: Option<String>)
    ensures
        opt_view(res) == spec_file_name(p@),
{
    proof {
        reveal_strlit(".");
        reveal_strlit("..");
    }
    let parts = split_on(p, '/');
    let ghost v = parts@.map_values(|x: String| x@);
    let mut n = parts.len();
    assert(v.take(n as int) =~= v);
    while n > 0 && (parts[n - 1].as_str().unicode_len() == 0 || str_eq(parts[n - 1].as_str(), "."))
        invariant
            n <= parts@.len(),
            v == parts@.map_values(|x: String| x@),
            trim_trailing_curdirs(v) == trim_trailing_curdirs(v.take(n as int)),
        decreases n,
    {
        proof {
            reveal_strlit(".");
        }
        assert(v.take(n as int).drop_last() =~= v.take(n - 1));
        assert(v.take(n as int).last() == parts@[n - 1]@);
        assert(parts@[n - 1]@.len() == 0 || parts@[n - 1]@ == "."@);
        assert("."@ == seq!['.']);
        assert(v.take(n as int).last().len() == 0 || v.take(n as int).last() == seq!['.']);
        n -= 1;
    }
    proof {
        reveal_strlit(".");
        reveal_strlit("..");
    }
    if n == 0 {
        assert(v.take(0) =~= seq![]);
        return None;
    }
    assert(v.take(n as int).last() == parts@[n - 1]@);
    assert("."@ == seq!['.']);
    assert(".."@ == seq!['.', '.']);
    assert(parts@[n - 1]@.len() != 0 && parts@[n - 1]@ != "."@);
    assert(trim_trailing_curdirs(v.take(n as int)) == v.take(n as int));
    if str_eq(parts[n - 1].as_str(), "..") {
        None
    } else {
        Some(parts[n - 1].clone())
    }
}

} // verus!
