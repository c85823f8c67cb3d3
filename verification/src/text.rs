//! Text helpers with exact specifications: Unicode whitespace, line
//! splitting, whitespace splitting, decimal parsing and padding.

use vstd::prelude::*;
use vstd::string::*;

verus! {

/// The Unicode `White_Space` property (PropList.txt), which is what
/// `char::is_whitespace` tests.
pub open spec fn is_white_space(c: char) -> bool {
    ||| ('\u{9}' <= c && c <= '\u{d}')
    ||| c == ' '
    ||| c == '\u{85}'
    ||| c == '\u{a0}'
    ||| c == '\u{1680}'
    ||| ('\u{2000}' <= c && c <= '\u{200a}')
    ||| c == '\u{2028}'
    ||| c == '\u{2029}'
    ||| c == '\u{202f}'
    ||| c == '\u{205f}'
    ||| c == '\u{3000}'
}

/// Whether `c` is Unicode whitespace.
pub fn is_whitespace(c: char) -> (r: bool)
    ensures
        r == is_white_space(c),
{
    ('\u{9}' <= c && c <= '\u{d}') || c == ' ' || c == '\u{85}' || c == '\u{a0}' || c == '\u{1680}'
        || ('\u{2000}' <= c && c <= '\u{200a}') || c == '\u{2028}' || c == '\u{2029}' || c
        == '\u{202f}' || c == '\u{205f}' || c == '\u{3000}'
}

/// The characters of `s`, in order.
pub fn chars_of(s: &str) -> (v: Vec<char>)
    ensures
        v@ == s@,
{
    let mut v: Vec<char> = Vec::new();
    for c in it: s.chars()
        invariant
            v@ == it.seq().take(it.index() as int),
            it.seq() == s@,
    {
        v.push(c);
    }
    v
}

/// Scanning `s` from the left: the lines ended by a `'\n'` so far (without
/// the `'\n'`), and the characters of the line not yet ended.
pub open spec fn line_scan(s: Seq<char>) -> (Seq<Seq<char>>, Seq<char>)
    decreases s.len(),
{
    if s.len() == 0 {
        (seq![], seq![])
    } else {
        let (done, cur) = line_scan(s.drop_last());
        if s.last() == '\n' {
            (done.push(cur), seq![])
        } else {
            (done, cur.push(s.last()))
        }
    }
}

/// A line ended by `"\r\n"` loses its `'\r'` too.
pub open spec fn strip_cr(line: Seq<char>) -> Seq<char> {
    if line.len() > 0 && line.last() == '\r' {
        line.drop_last()
    } else {
        line
    }
}

/// The lines of `s` as `str::lines` yields them: split at `'\n'`, a
/// `'\r'` before the `'\n'` dropped, the last line ending optional.
pub open spec fn lines_of(s: Seq<char>) -> Seq<Seq<char>> {
    let (done, cur) = line_scan(s);
    let ended = done.map_values(|l: Seq<char>| strip_cr(l));
    if cur.len() == 0 {
        ended
    } else {
        ended.push(cur)
    }
}

/// The characters `s[from..to]` as a `String`.
fn substring(s: &str, from: usize, to: usize) -> (r: String)
    requires
        from <= to <= s@.len(),
    ensures
        r@ == s@.subrange(from as int, to as int),
{
    s.substring_char(from, to).to_owned()
}

/// Whether `c` is the last character of `s` (false for an empty `s`).
pub fn ends_with_char(s: &str, c: char) -> (r: bool)
    ensures
        r == (s@.len() > 0 && s@.last() == c),
{
    let n = s.unicode_len();
    if n == 0 {
        false
    } else {
        s.get_char(n - 1) == c
    }
}

/// The lines of `s` (see `lines_of`).
pub fn lines(s: &str) -> (r: Vec<String>)
    ensures
        r@.map_values(|l: String| l@) == lines_of(s@),
{
    let chars = chars_of(s);
    let n = chars.len();
    let mut done: Vec<String> = Vec::new();
    let mut start: usize = 0;
    let mut i: usize = 0;
    while i < n
        invariant
            n == chars@.len(),
            chars@ == s@,
            start <= i <= n,
            line_scan(s@.take(i as int)).0.map_values(|l: Seq<char>| strip_cr(l)) == done@.map_values(
                |l: String| l@,
            ),
            line_scan(s@.take(i as int)).1 == s@.subrange(start as int, i as int),
        decreases n - i,
    {
        proof {
            assert(s@.take(i + 1).drop_last() =~= s@.take(i as int));
            assert(s@.take(i + 1).last() == chars@[i as int]);
        }
        let ghost old_done = done@;
        if chars[i] == '\n' {
            let line_end = if i > start && chars[i - 1] == '\r' {
                i - 1
            } else {
                i
            };
            let line = substring(s, start, line_end);
            proof {
                let cur = s@.subrange(start as int, i as int);
                assert(strip_cr(cur) =~= line@);
            }
            done.push(line);
            start = i + 1;
            proof {
                assert(done@.map_values(|l: String| l@) =~= old_done.map_values(|l: String| l@).push(line@));
                let sc = line_scan(s@.take(i as int));
                assert(line_scan(s@.take(i + 1)).0 == sc.0.push(sc.1));
                assert(sc.0.push(sc.1).map_values(|l: Seq<char>| strip_cr(l)) =~= sc.0.map_values(|l: Seq<char>| strip_cr(l)).push(strip_cr(sc.1)));
                assert(s@.subrange(start as int, i + 1) =~= seq![]);
            }
        } else {
            proof {
                assert(s@.subrange(start as int, i + 1) =~= s@.subrange(start as int, i as int).push(s@[i as int]));
            }
        }
        i = i + 1;
    }
    proof {
        assert(s@.take(n as int) =~= s@);
    }
    if start < n {
        let last = substring(s, start, n);
        done.push(last);
    }
    proof {
        assert(lines_of(s@) =~= done@.map_values(|l: String| l@));
    }
    done
}

/// Whether one of the lines of `s` is exactly `line`.
pub fn has_line(s: &str, line: &str) -> (r: bool)
    ensures
        r == lines_of(s@).contains(line@),
{
    let all = lines(s);
    let target = line.to_owned();
    let ghost views = all@.map_values(|l: String| l@);
    let mut i: usize = 0;
    while i < all.len()
        invariant
            i <= all@.len(),
            views == all@.map_values(|l: String| l@),
            views == lines_of(s@),
            target@ == line@,
            forall|j: int| 0 <= j < i ==> views[j] != line@,
        decreases all@.len() - i,
    {
        if all[i] == target {
            assert(views[i as int] == line@);
            return true;
        }
        i = i + 1;
    }
    proof {
        if views.contains(line@) {
            let j = choose|j: int| 0 <= j < views.len() && views[j] == line@;
            assert(views[j] != line@);
        }
    }
    false
}

/// Scanning `s` from the left: the words ended by whitespace so far, and
/// the characters of the word not yet ended.
pub open spec fn word_scan(s: Seq<char>) -> (Seq<Seq<char>>, Seq<char>)
    decreases s.len(),
{
    if s.len() == 0 {
        (seq![], seq![])
    } else {
        let (done, cur) = word_scan(s.drop_last());
        if is_white_space(s.last()) {
            if cur.len() == 0 {
                (done, seq![])
            } else {
                (done.push(cur), seq![])
            }
        } else {
            (done, cur.push(s.last()))
        }
    }
}

/// The words of `s` as `str::split_whitespace` yields them: the maximal
/// runs of characters that are not Unicode whitespace.
pub open spec fn words_of(s: Seq<char>) -> Seq<Seq<char>> {
    let (done, cur) = word_scan(s);
    if cur.len() == 0 {
        done
    } else {
        done.push(cur)
    }
}

/// The words of `s` (see `words_of`).
pub fn split_whitespace(s: &str) -> (r: Vec<String>)
    ensures
        r@.map_values(|w: String| w@) == words_of(s@),
{
    let chars = chars_of(s);
    let n = chars.len();
    let mut done: Vec<String> = Vec::new();
    let mut start: usize = 0;
    let mut i: usize = 0;
    while i < n
        invariant
            n == chars@.len(),
            chars@ == s@,
            start <= i <= n,
            word_scan(s@.take(i as int)).0 == done@.map_values(|w: String| w@),
            word_scan(s@.take(i as int)).1 == s@.subrange(start as int, i as int),
        decreases n - i,
    {
        proof {
            assert(s@.take(i + 1).drop_last() =~= s@.take(i as int));
            assert(s@.take(i + 1).last() == chars@[i as int]);
        }
        let ghost old_done = done@;
        if is_whitespace(chars[i]) {
            if start < i {
                let word = substring(s, start, i);
                done.push(word);
                proof {
                    assert(done@.map_values(|w: String| w@) =~= old_done.map_values(|w: String| w@).push(word@));
                }
            }
            start = i + 1;
            proof {
                assert(s@.subrange(start as int, i + 1) =~= seq![]);
            }
        } else {
            proof {
                assert(s@.subrange(start as int, i + 1) =~= s@.subrange(start as int, i as int).push(s@[i as int]));
            }
        }
        i = i + 1;
    }
    proof {
        assert(s@.take(n as int) =~= s@);
    }
    if start < n {
        let ghost old_done = done@;
        let last = substring(s, start, n);
        done.push(last);
        proof {
            assert(done@.map_values(|w: String| w@) =~= old_done.map_values(|w: String| w@).push(last@));
        }
    }
    done
}

/// Whether `c` is one of the ASCII digits `'0'..='9'`.
pub open spec fn is_digit(c: char) -> bool {
    '0' <= c && c <= '9'
}

/// The number that the decimal digits `d` write.
pub open spec fn decimal_value(d: Seq<char>) -> nat
    decreases d.len(),
{
    if d.len() == 0 {
        0
    } else {
        decimal_value(d.drop_last()) * 10 + ((d.last() as nat) - ('0' as nat)) as nat
    }
}

/// `s` without a leading `'+'`.
pub open spec fn unsigned_digits(s: Seq<char>) -> Seq<char> {
    if s.len() > 0 && s[0] == '+' {
        s.drop_first()
    } else {
        s
    }
}

/// Whether `d` is a non-empty run of ASCII digits.
pub open spec fn all_digits(d: Seq<char>) -> bool {
    d.len() > 0 && forall|i: int| 0 <= i < d.len() ==> is_digit(#[trigger] d[i])
}

/// What `str::parse::<u64>` gives: an optional `'+'`, then at least one
/// ASCII digit and nothing else, with a value that fits in 64 bits.
pub open spec fn parse_u64_spec(s: Seq<char>) -> Option<u64> {
    let d = unsigned_digits(s);
    if all_digits(d) && decimal_value(d) <= u64::MAX {
        Some(decimal_value(d) as u64)
    } else {
        None
    }
}

/// Appending digits never makes the value smaller.
proof fn lemma_decimal_value_grows(d: Seq<char>, k: int)
    requires
        0 <= k <= d.len(),
        forall|i: int| 0 <= i < d.len() ==> is_digit(#[trigger] d[i]),
    ensures
        decimal_value(d.take(k)) <= decimal_value(d),
    decreases d.len() - k,
{
    if k < d.len() {
        lemma_decimal_value_grows(d, k + 1);
        assert(d.take(k + 1).drop_last() =~= d.take(k));
        assert(is_digit(d[k]));
    } else {
        assert(d.take(k) =~= d);
    }
}

/// Parses `s` as `str::parse::<u64>` does.
pub fn parse_u64(s: &str) -> (r: Option<u64>)
    ensures
        r == parse_u64_spec(s@),
{
    let chars = chars_of(s);
    let n = chars.len();
    let start: usize = if n > 0 && chars[0] == '+' {
        1
    } else {
        0
    };
    let ghost d = unsigned_digits(s@);
    assert(d =~= s@.subrange(start as int, n as int));
    if start == n {
        return None;
    }
    let mut value: u64 = 0;
    let mut i: usize = start;
    while i < n
        invariant
            n == chars@.len(),
            chars@ == s@,
            start <= i <= n,
            d == s@.subrange(start as int, n as int),
            d == unsigned_digits(s@),
            forall|j: int| start <= j < i ==> is_digit(#[trigger] chars@[j]),
            value == decimal_value(d.take(i - start)),
        decreases n - i,
    {
        let c = chars[i];
        if !('0' <= c && c <= '9') {
            proof {
                assert(!is_digit(d[i - start]));
                assert(!all_digits(d));
            }
            return None;
        }
        proof {
            assert(d.take(i - start + 1).drop_last() =~= d.take(i - start));
            assert(d.take(i - start + 1).last() == c);
        }
        let digit = (c as u32 - '0' as u32) as u64;
        let next = match value.checked_mul(10) {
            Some(v) => v.checked_add(digit),
            None => None,
        };
        match next {
            Some(v) => {
                value = v;
            },
            None => {
                proof {
                    let k = i - start + 1;
                    assert(decimal_value(d.take(k)) > u64::MAX);
                    if all_digits(d) {
                        lemma_decimal_value_grows(d, k);
                    }
                }
                return None;
            },
        }
        i = i + 1;
    }
    proof {
        assert(d.take(n - start) =~= d);
        assert forall|j: int| 0 <= j < d.len() implies is_digit(#[trigger] d[j]) by {
            assert(d[j] == chars@[start + j]);
        }
    }
    Some(value)
}

/// `n` copies of `s`, one after another.
pub open spec fn repeat_seq(s: Seq<char>, n: nat) -> Seq<char>
    decreases n,
{
    if n == 0 {
        seq![]
    } else {
        repeat_seq(s, (n - 1) as nat) + s
    }
}

/// `n` copies of `s`, as `str::repeat` builds them.
pub fn repeat(s: &str, n: usize) -> (r: String)
    ensures
        r@ == repeat_seq(s@, n as nat),
{
    let mut r = String::new();
    let mut i: usize = 0;
    while i < n
        invariant
            i <= n,
            r@ == repeat_seq(s@, i as nat),
        decreases n - i,
    {
        r.append(s);
        i = i + 1;
    }
    r
}

/// `s` padded on the right with spaces to at least `width` characters, as
/// the format spec `{:<width}` lays out a string.
pub open spec fn pad_right_seq(s: Seq<char>, width: nat) -> Seq<char> {
    if s.len() < width {
        s + Seq::new((width - s.len()) as nat, |i: int| ' ')
    } else {
        s
    }
}

/// Pads `s` on the right with spaces to at least `width` characters.
pub fn pad_right(s: &str, width: usize) -> (r: String)
    ensures
        r@ == pad_right_seq(s@, width as nat),
{
    let n = s.unicode_len();
    let mut r = s.to_owned();
    if n < width {
        let mut i: usize = n;
        while i < width
            invariant
                n == s@.len(),
                n <= i <= width,
                r@ == s@ + Seq::new((i - n) as nat, |k: int| ' '),
            decreases width - i,
        {
            proof {
                reveal_strlit(" ");
            }
            r.append(" ");
            i = i + 1;
            proof {
                assert(r@ =~= s@ + Seq::new((i - n) as nat, |k: int| ' '));
            }
        }
    }
    r
}

/// `s` without its leading and trailing Unicode whitespace, as `str::trim`
/// gives it.
pub open spec fn trim_seq(s: Seq<char>) -> Seq<char>
    decreases s.len(),
{
    if s.len() == 0 {
        s
    } else if is_white_space(s[0]) {
        trim_seq(s.drop_first())
    } else if is_white_space(s.last()) {
        trim_seq(s.drop_last())
    } else {
        s
    }
}

/// Trimming drops a whitespace prefix `s[..a]` and a whitespace suffix
/// `s[b..]` around a part that starts and ends with other characters.
proof fn lemma_trim_bounds(s: Seq<char>, a: int, b: int)
    requires
        0 <= a <= b <= s.len(),
        forall|k: int| 0 <= k < a ==> is_white_space(#[trigger] s[k]),
        forall|k: int| b <= k < s.len() ==> is_white_space(#[trigger] s[k]),
        a < b ==> !is_white_space(s[a]) && !is_white_space(s[b - 1]),
        a == b ==> b == s.len(),
    ensures
        trim_seq(s) == s.subrange(a, b),
    decreases s.len(),
{
    if s.len() == 0 {
        assert(s.subrange(a, b) =~= s);
    } else if a > 0 {
        let t = s.drop_first();
        assert forall|k: int| 0 <= k < a - 1 implies is_white_space(#[trigger] t[k]) by {
            assert(t[k] == s[k + 1]);
        }
        assert forall|k: int| b - 1 <= k < t.len() implies is_white_space(#[trigger] t[k]) by {
            assert(t[k] == s[k + 1]);
        }
        lemma_trim_bounds(t, a - 1, b - 1);
        assert(t.subrange(a - 1, b - 1) =~= s.subrange(a, b));
    } else if b < s.len() {
        let t = s.drop_last();
        assert(is_white_space(s[s.len() - 1]));
        if a < b {
            assert(!is_white_space(s[0]));
        }
        assert forall|k: int| b <= k < t.len() implies is_white_space(#[trigger] t[k]) by {
            assert(t[k] == s[k]);
        }
        if a == b {
            assert(false);
        }
        lemma_trim_bounds(t, a, b);
        assert(t.subrange(a, b) =~= s.subrange(a, b));
    } else {
        assert(s.subrange(a, b) =~= s);
    }
}

/// `s` without its leading and trailing whitespace (see `trim_seq`).
pub fn trim(s: &str) -> (r: String)
    ensures
        r@ == trim_seq(s@),
{
    let chars = chars_of(s);
    let n = chars.len();
    let mut a: usize = 0;
    while a < n && is_whitespace(chars[a])
        invariant
            n == chars@.len(),
            chars@ == s@,
            a <= n,
            forall|k: int| 0 <= k < a ==> is_white_space(#[trigger] s@[k]),
        decreases n - a,
    {
        a = a + 1;
    }
    let mut b: usize = n;
    while b > a && is_whitespace(chars[b - 1])
        invariant
            n == chars@.len(),
            chars@ == s@,
            a <= b <= n,
            forall|k: int| b <= k < n ==> is_white_space(#[trigger] s@[k]),
        decreases b,
    {
        b = b - 1;
    }
    proof {
        if a == b && b < n {
            assert(is_white_space(s@[a as int]));
            assert(false);
        }
        lemma_trim_bounds(s@, a as int, b as int);
    }
    substring(s, a, b)
}

} // verus!
