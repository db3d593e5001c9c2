//! Character-level helpers shared by the assembler front end and the shell:
//! splitting on spaces, comparing text, and reading hexadecimal and decimal
//! numbers.
use vstd::prelude::*;

verus! {

/// `s` cut at every space, as `str::split(' ')` cuts it: `n` spaces give
/// `n + 1` pieces, empty ones included.
pub open spec fn split_on_space(s: Seq<char>) -> Seq<Seq<char>>
    decreases s.len(),
{
    if s.len() == 0 {
        seq![Seq::<char>::empty()]
    } else {
        let init = split_on_space(s.drop_last());
        if s.last() == ' ' {
            init.push(Seq::<char>::empty())
        } else {
            init.update(init.len() - 1, init.last().push(s.last()))
        }
    }
}

pub proof fn lemma_split_nonempty(s: Seq<char>)
    ensures
        split_on_space(s).len() >= 1,
    decreases s.len(),
{
    if s.len() > 0 {
        lemma_split_nonempty(s.drop_last());
    }
}

/// The pieces of `s` between spaces, in order.
pub fn split_spaces(s: &str) -> (r: Vec<&str>)
    ensures
        r@.map_values(|p: &str| p@) == split_on_space(s@),
{
    let n = s.unicode_len();
    let mut parts: Vec<&str> = Vec::new();
    let mut start: usize = 0;
    let mut i: usize = 0;
    proof {
        assert(s@.take(0) =~= Seq::<char>::empty());
        assert(s@.subrange(0, 0) =~= Seq::<char>::empty());
        assert(parts@.map_values(|p: &str| p@).push(Seq::<char>::empty()) =~= seq![Seq::<char>::empty()]);
    }
    while i < n
        invariant
            n == s@.len(),
            start <= i <= n,
            split_on_space(s@.take(i as int)) == parts@.map_values(|p: &str| p@).push(
                s@.subrange(start as int, i as int),
            ),
        decreases n - i,
    {
        let c = s.get_char(i);
        proof {
            let t = s@.take(i as int + 1);
            assert(t.drop_last() =~= s@.take(i as int));
            assert(t.last() == c);
            lemma_split_nonempty(s@.take(i as int));
        }
        if c == ' ' {
            let piece = s.substring_char(start, i);
            let ghost before = parts@;
            parts.push(piece);
            start = i + 1;
            proof {
                assert(s@.subrange(start as int, i + 1) =~= Seq::<char>::empty());
                assert(parts@.map_values(|p: &str| p@) =~= before.map_values(|p: &str| p@).push(piece@));
            }
        } else {
            proof {
                assert(s@.subrange(start as int, i + 1) =~= s@.subrange(start as int, i as int).push(c));
                let v = parts@.map_values(|p: &str| p@).push(s@.subrange(start as int, i as int));
                assert(v.update(v.len() - 1, v.last().push(c)) =~= parts@.map_values(|p: &str| p@).push(
                    s@.subrange(start as int, i + 1),
                ));
            }
        }
        i = i + 1;
    }
    let last = s.substring_char(start, n);
    let ghost before = parts@;
    parts.push(last);
    proof {
        assert(s@.take(n as int) =~= s@);
        assert(parts@.map_values(|p: &str| p@) =~= before.map_values(|p: &str| p@).push(last@));
    }
    parts
}

/// Whether two texts hold the same characters.
pub fn same_text(a: &str, b: &str) -> (r: bool)
    ensures
        r == (a@ == b@),
{
    let n = a.unicode_len();
    if n != b.unicode_len() {
        return false;
    }
    let mut i: usize = 0;
    while i < n
        invariant
            n == a@.len() == b@.len(),
            i <= n,
            a@.take(i as int) == b@.take(i as int),
        decreases n - i,
    {
        if a.get_char(i) != b.get_char(i) {
            return false;
        }
        assert(a@.take(i + 1) =~= a@.take(i as int).push(a@[i as int]));
        assert(b@.take(i + 1) =~= b@.take(i as int).push(b@[i as int]));
        i = i + 1;
    }
    assert(a@ =~= a@.take(n as int));
    assert(b@ =~= b@.take(n as int));
    true
}

pub open spec fn is_digit_in(c: char, base: int) -> bool {
    if base == 16 {
        ('0' <= c <= '9') || ('a' <= c <= 'f') || ('A' <= c <= 'F')
    } else {
        '0' <= c <= '9'
    }
}

/// The value of a digit character; letters count from ten.
pub open spec fn digit_value(c: char) -> int {
    if '0' <= c <= '9' {
        c as int - '0' as int
    } else if 'a' <= c <= 'f' {
        c as int - 'a' as int + 10
    } else {
        c as int - 'A' as int + 10
    }
}

/// The value of a digit string in the given base, most significant first.
pub open spec fn digits_value(t: Seq<char>, base: int) -> int
    decreases t.len(),
{
    if t.len() == 0 {
        0
    } else {
        digits_value(t.drop_last(), base) * base + digit_value(t.last())
    }
}

/// The digits of a number token: what follows an optional leading `+`.
pub open spec fn unsigned_digits(t: Seq<char>) -> Seq<char> {
    if t.len() > 0 && t[0] == '+' {
        t.subrange(1, t.len() as int)
    } else {
        t
    }
}

/// An unsigned number as `from_str_radix` and `parse` read one: an optional
/// `+`, then at least one digit of the base; `None` also when the value
/// exceeds `max`.
pub open spec fn number_at_most(t: Seq<char>, base: int, max: int) -> Option<int> {
    let d = unsigned_digits(t);
    if d.len() > 0 && (forall|i: int| 0 <= i < d.len() ==> is_digit_in(#[trigger] d[i], base))
        && digits_value(d, base) <= max {
        Some(digits_value(d, base))
    } else {
        None
    }
}

proof fn lemma_digits_nonneg(t: Seq<char>, base: int)
    requires
        base == 10 || base == 16,
        forall|k: int| 0 <= k < t.len() ==> is_digit_in(#[trigger] t[k], base),
    ensures
        digits_value(t, base) >= 0,
    decreases t.len(),
{
    if t.len() > 0 {
        let p = t.drop_last();
        assert(forall|k: int| 0 <= k < p.len() ==> p[k] == t[k]);
        lemma_digits_nonneg(p, base);
        assert(is_digit_in(t[t.len() - 1], base));
        assert(digits_value(p, base) * base >= 0) by (nonlinear_arith)
            requires
                digits_value(p, base) >= 0,
                base >= 1,
        ;
    }
}

/// A prefix of a digit string is worth no more than the whole.
proof fn lemma_digits_grow(t: Seq<char>, base: int, i: int)
    requires
        base == 10 || base == 16,
        0 <= i <= t.len(),
        forall|k: int| 0 <= k < t.len() ==> is_digit_in(#[trigger] t[k], base),
    ensures
        digits_value(t.take(i), base) <= digits_value(t, base),
    decreases t.len() - i,
{
    if i < t.len() {
        lemma_digits_grow(t, base, i + 1);
        let p = t.take(i + 1);
        assert(p.drop_last() =~= t.take(i));
        assert(p.last() == t[i]);
        assert(is_digit_in(t[i], base));
        assert(forall|k: int| 0 <= k < i ==> t.take(i)[k] == t[k]);
        lemma_digits_nonneg(t.take(i), base);
        assert(digits_value(t.take(i), base) * base >= digits_value(t.take(i), base)) by (nonlinear_arith)
            requires
                digits_value(t.take(i), base) >= 0,
                base >= 1,
        ;
    } else {
        assert(t.take(i) =~= t);
    }
}

/// Reads an unsigned number of at most `max` in base 16 (`hex`) or 10.
pub fn parse_number(t: &str, hex: bool, max: u32) -> (r: Option<u32>)
    ensures
        ({
            let base = if hex { 16int } else { 10int };
            &&& number_at_most(t@, base, max as int) is Some ==> r is Some && r->0 as int
                == number_at_most(t@, base, max as int)->0
            &&& number_at_most(t@, base, max as int) is None ==> r is None
        }),
{
    let n = t.unicode_len();
    let mut i: usize = 0;
    if n > 0 && t.get_char(0) == '+' {
        i = 1;
    }
    let first = i;
    let ghost d = unsigned_digits(t@);
    let ghost base = if hex { 16int } else { 10int };
    assert(d =~= t@.subrange(first as int, n as int));
    if first >= n {
        return None;
    }
    let mut value: u64 = 0;
    assert(d.take(0) =~= Seq::<char>::empty());
    while i < n
        invariant
            first <= i <= n,
            n == t@.len(),
            d == t@.subrange(first as int, n as int),
            d == unsigned_digits(t@),
            base == (if hex { 16int } else { 10int }),
            value <= max,
            forall|k: int| 0 <= k < i - first ==> is_digit_in(#[trigger] d[k], base),
            value == digits_value(d.take(i - first), base),
        decreases n - i,
    {
        let c = t.get_char(i);
        let ghost k = i - first;
        assert(d[k] == c);
        let digit: u64 = if '0' <= c && c <= '9' {
            (c as u64) - ('0' as u64)
        } else if hex && 'a' <= c && c <= 'f' {
            (c as u64) - ('a' as u64) + 10
        } else if hex && 'A' <= c && c <= 'F' {
            (c as u64) - ('A' as u64) + 10
        } else {
            assert(!is_digit_in(d[k], base));
            return None;
        };
        assert(digit == digit_value(c));
        let next: u64 = value * (if hex { 16 } else { 10 }) + digit;
        proof {
            assert(d.take(k + 1).drop_last() =~= d.take(k));
            assert(d.take(k + 1).last() == c);
            assert(next == digits_value(d.take(k + 1), base));
        }
        if next > max as u64 {
            proof {
                if forall|j: int| 0 <= j < d.len() ==> is_digit_in(#[trigger] d[j], base) {
                    lemma_digits_grow(d, base, k + 1);
                }
            }
            return None;
        }
        value = next;
        i = i + 1;
    }
    assert(d.take(n - first) =~= d);
    Some(value as u32)
}

/// A byte written as exactly two hexadecimal digits, most significant first.
pub open spec fn hex_pair(t: Seq<char>) -> Option<u8> {
    if t.len() == 2 && is_digit_in(t[0], 16) && is_digit_in(t[1], 16) {
        Some((digit_value(t[0]) * 16 + digit_value(t[1])) as u8)
    } else {
        None
    }
}

/// The value of a hexadecimal digit, if `c` is one.
fn hex_digit(c: char) -> (r: Option<u8>)
    ensures
        r is Some <==> is_digit_in(c, 16),
        r matches Some(v) ==> v as int == digit_value(c),
{
    if '0' <= c && c <= '9' {
        Some(((c as u32) - ('0' as u32)) as u8)
    } else if 'a' <= c && c <= 'f' {
        Some(((c as u32) - ('a' as u32) + 10) as u8)
    } else if 'A' <= c && c <= 'F' {
        Some(((c as u32) - ('A' as u32) + 10) as u8)
    } else {
        None
    }
}

/// Reads a byte written as exactly two hexadecimal digits.
pub fn parse_hex_pair(t: &str) -> (r: Option<u8>)
    ensures
        r == hex_pair(t@),
{
    if t.unicode_len() != 2 {
        return None;
    }
    match (hex_digit(t.get_char(0)), hex_digit(t.get_char(1))) {
        (Some(hi), Some(lo)) => Some(hi * 16 + lo),
        _ => None,
    }
}

/// Whether `c` separates words: an ASCII space, tab, line feed, carriage
/// return or form feed.
pub open spec fn is_blank(c: char) -> bool {
    c == ' ' || c == '\t' || c == '\n' || c == '\r' || c == '\x0c'
}

/// The finished words of `s` and the word still being read at its end.
pub open spec fn words_state(s: Seq<char>) -> (Seq<Seq<char>>, Seq<char>)
    decreases s.len(),
{
    if s.len() == 0 {
        (Seq::empty(), Seq::empty())
    } else {
        let (done, cur) = words_state(s.drop_last());
        if is_blank(s.last()) {
            if cur.len() > 0 {
                (done.push(cur), Seq::empty())
            } else {
                (done, cur)
            }
        } else {
            (done, cur.push(s.last()))
        }
    }
}

/// The maximal runs of non-blank characters of `s`, in order.
pub open spec fn words(s: Seq<char>) -> Seq<Seq<char>> {
    let (done, cur) = words_state(s);
    if cur.len() > 0 {
        done.push(cur)
    } else {
        done
    }
}

/// The words of `s`: the pieces between runs of blanks, none of them empty.
pub fn split_words(s: &str) -> (r: Vec<&str>)
    ensures
        r@.map_values(|p: &str| p@) == words(s@),
{
    let n = s.unicode_len();
    let mut parts: Vec<&str> = Vec::new();
    let mut start: usize = 0;
    let mut i: usize = 0;
    assert(s@.take(0) =~= Seq::<char>::empty());
    assert(s@.subrange(0, 0) =~= Seq::<char>::empty());
    assert(parts@.map_values(|p: &str| p@) =~= Seq::<Seq<char>>::empty());
    while i < n
        invariant
            n == s@.len(),
            start <= i <= n,
            words_state(s@.take(i as int)) == (parts@.map_values(|p: &str| p@), s@.subrange(
                start as int,
                i as int,
            )),
        decreases n - i,
    {
        let c = s.get_char(i);
        proof {
            let t = s@.take(i as int + 1);
            assert(t.drop_last() =~= s@.take(i as int));
            assert(t.last() == c);
        }
        if c == ' ' || c == '\t' || c == '\n' || c == '\r' || c == '\x0c' {
            if start < i {
                let piece = s.substring_char(start, i);
                let ghost before = parts@;
                parts.push(piece);
                assert(parts@.map_values(|p: &str| p@) =~= before.map_values(|p: &str| p@).push(piece@));
            }
            start = i + 1;
            assert(s@.subrange(start as int, i + 1) =~= Seq::<char>::empty());
        } else {
            assert(s@.subrange(start as int, i + 1) =~= s@.subrange(start as int, i as int).push(c));
        }
        i = i + 1;
    }
    assert(s@.take(n as int) =~= s@);
    if start < n {
        let last = s.substring_char(start, n);
        let ghost before = parts@;
        parts.push(last);
        assert(parts@.map_values(|p: &str| p@) =~= before.map_values(|p: &str| p@).push(last@));
    }
    parts
}

} // verus!
