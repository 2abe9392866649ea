//! Character-level helpers over `Seq<char>` models of strings: whitespace,
//! prefixes, line and word splitting, decimal numbers.

use vstd::prelude::*;

verus! {

/// Appends one character to a string.
#[verifier::external_body]
pub(crate) fn push_char(s: &mut String, c: char)
    ensures
        final(s)@ == old(s)@.push(c),
{
    s.push(c);
}

/// The characters of a string slice, in order.
pub fn chars_of(s: &str) -> (res: Vec<char>)
    ensures
        res@ == s@,
{
    let mut res: Vec<char> = Vec::new();
    for c in it: s.chars()
        invariant
            res@ == it.seq().take(it.index() as int),
            it.seq() == s@,
    {
        res.push(c);
    }
    res
}

/// Appends the characters `v[from..to]` to `s`.
pub fn push_chars(s: &mut String, v: &Vec<char>, from: usize, to: usize)
    requires
        from <= to <= v@.len(),
    ensures
        final(s)@ == old(s)@ + v@.subrange(from as int, to as int),
{
    let mut i = from;
    while i < to
        invariant
            from <= i <= to <= v@.len(),
            s@ == old(s)@ + v@.subrange(from as int, i as int),
        decreases to - i,
    {
        push_char(s, v[i]);
        i = i + 1;
        assert(v@.subrange(from as int, i as int) =~= v@.subrange(from as int, i - 1).push(v@[i - 1]));
    }
}

/// A string holding exactly the given characters.
pub fn string_of(v: &Vec<char>) -> (res: String)
    ensures
        res@ == v@,
{
    let mut s = String::new();
    push_chars(&mut s, v, 0, v.len());
    assert(v@.subrange(0, v@.len() as int) =~= v@);
    s
}

/// Unicode `White_Space`, the property that `char::is_whitespace` tests.
pub open spec fn is_space(c: char) -> bool {
    ||| ('\u{9}' <= c && c <= '\u{d}')
    ||| c == ' '
    ||| c == '\u{85}'
    ||| c == '\u{a0}'
    ||| c == '\u{1680}'
    ||| ('\u{2000}' <= c && c <= '\u{200a}')
    ||| c == '\u{2028}'
    ||| c == '\u{2029}'
    ||| c == '\u{202f}'
    ||| c == '\u{205f}'
    ||| c == '\u{3000}'
}

pub fn is_space_char(c: char) -> (r: bool)
    ensures
        r == is_space(c),
{
    ('\u{9}' <= c && c <= '\u{d}') || c == ' ' || c == '\u{85}' || c == '\u{a0}' || c == '\u{1680}'
        || ('\u{2000}' <= c && c <= '\u{200a}') || c == '\u{2028}' || c == '\u{2029}' || c
        == '\u{202f}' || c == '\u{205f}' || c == '\u{3000}'
}

/// Every character of `s` is whitespace (so `s.trim()` is empty).
pub open spec fn all_space(s: Seq<char>) -> bool {
    forall|i: int| 0 <= i < s.len() ==> is_space(#[trigger] s[i])
}

pub fn is_blank(s: &str) -> (r: bool)
    ensures
        r == all_space(s@),
{
    let v = chars_of(s);
    let mut i: usize = 0;
    while i < v.len()
        invariant
            v@ == s@,
            i <= v@.len(),
            forall|j: int| 0 <= j < i ==> is_space(#[trigger] v@[j]),
        decreases v.len() - i,
    {
        if !is_space_char(v[i]) {
            return false;
        }
        i = i + 1;
    }
    true
}

pub open spec fn starts_with(s: Seq<char>, p: Seq<char>) -> bool {
    p.len() <= s.len() && s.subrange(0, p.len() as int) == p
}

pub open spec fn ends_with(s: Seq<char>, p: Seq<char>) -> bool {
    p.len() <= s.len() && s.subrange(s.len() - p.len(), s.len() as int) == p
}

/// `s[at..]` begins with `p`.
pub fn has_at(s: &Vec<char>, at: usize, p: &Vec<char>) -> (r: bool)
    requires
        at <= s@.len(),
    ensures
        r == starts_with(s@.subrange(at as int, s@.len() as int), p@),
{
    if p.len() > s.len() - at {
        return false;
    }
    let mut i: usize = 0;
    while i < p.len()
        invariant
            at <= s@.len(),
            s@.len() == s.len(),
            p@.len() <= s@.len() - at,
            i <= p@.len(),
            forall|j: int| 0 <= j < i ==> s@[at + j] == p@[j],
        decreases p.len() - i,
    {
        if s[at + i] != p[i] {
            assert(s@.subrange(at as int, s@.len() as int).subrange(0, p@.len() as int)[i as int]
                != p@[i as int]);
            return false;
        }
        i = i + 1;
    }
    assert(s@.subrange(at as int, s@.len() as int).subrange(0, p@.len() as int) =~= p@);
    true
}

pub fn chars_start_with(s: &Vec<char>, p: &Vec<char>) -> (r: bool)
    ensures
        r == starts_with(s@, p@),
{
    let r = has_at(s, 0, p);
    assert(s@.subrange(0, s@.len() as int) =~= s@);
    r
}

pub fn chars_end_with(s: &Vec<char>, p: &Vec<char>) -> (r: bool)
    ensures
        r == ends_with(s@, p@),
{
    if p.len() > s.len() {
        return false;
    }
    let at = s.len() - p.len();
    let r = has_at(s, at, p);
    assert(s@.subrange(at as int, s@.len() as int).subrange(0, p@.len() as int)
        =~= s@.subrange(at as int, s@.len() as int));
    r
}

pub fn str_eq(a: &str, b: &str) -> (r: bool)
    ensures
        r == (a@ == b@),
{
    let x = chars_of(a);
    let y = chars_of(b);
    if x.len() != y.len() {
        return false;
    }
    let r = has_at(&x, 0, &y);
    assert(x@.subrange(0, x@.len() as int) =~= x@);
    assert(x@.subrange(0, y@.len() as int) =~= x@);
    r
}


/// The views of a sequence of character vectors.
pub open spec fn views(v: Seq<Vec<char>>) -> Seq<Seq<char>> {
    v.map_values(|x: Vec<char>| x@)
}

/// A line without the `'\r'` of a `"\r\n"` ending.
pub open spec fn strip_cr(l: Seq<char>) -> Seq<char> {
    if l.len() > 0 && l.last() == '\r' {
        l.drop_last()
    } else {
        l
    }
}

/// Reading `s` left to right: the lines already ended by `'\n'`, and the
/// characters of the line under way.
pub open spec fn line_scan(s: Seq<char>) -> (Seq<Seq<char>>, Seq<char>)
    decreases s.len(),
{
    if s.len() == 0 {
        (seq![], seq![])
    } else {
        let (done, cur) = line_scan(s.drop_last());
        if s.last() == '\n' {
            (done.push(strip_cr(cur)), seq![])
        } else {
            (done, cur.push(s.last()))
        }
    }
}

/// The lines of `s` as `str::lines` yields them: split at `'\n'`, a final
/// empty piece dropped, and a `'\r'` before each `'\n'` removed.
pub open spec fn lines(s: Seq<char>) -> Seq<Seq<char>> {
    let (done, cur) = line_scan(s);
    if cur.len() == 0 {
        done
    } else {
        done.push(cur)
    }
}

pub fn split_lines(s: &Vec<char>) -> (res: Vec<Vec<char>>)
    ensures
        views(res@) == lines(s@),
{
    let mut res: Vec<Vec<char>> = Vec::new();
    let mut cur: Vec<char> = Vec::new();
    let mut i: usize = 0;
    while i < s.len()
        invariant
            i <= s@.len(),
            (views(res@), cur@) == line_scan(s@.take(i as int)),
        decreases s.len() - i,
    {
        assert(s@.take(i + 1).drop_last() =~= s@.take(i as int));
        let c = s[i];
        if c == '\n' {
            let ghost before = views(res@);
            if cur.len() > 0 && cur[cur.len() - 1] == '\r' {
                cur.pop();
            }
            res.push(cur);
            cur = Vec::new();
            assert(views(res@) =~= before.push(res@.last()@));
        } else {
            cur.push(c);
        }
        i = i + 1;
    }
    assert(s@.take(s@.len() as int) =~= s@);
    if cur.len() > 0 {
        let ghost before = views(res@);
        res.push(cur);
        assert(views(res@) =~= before.push(res@.last()@));
    }
    res
}

/// Reading `s` left to right: the whitespace-separated words already ended,
/// and the characters of the word under way.
pub open spec fn word_scan(s: Seq<char>) -> (Seq<Seq<char>>, Seq<char>)
    decreases s.len(),
{
    if s.len() == 0 {
        (seq![], seq![])
    } else {
        let (done, cur) = word_scan(s.drop_last());
        if is_space(s.last()) {
            if cur.len() > 0 {
                (done.push(cur), seq![])
            } else {
                (done, seq![])
            }
        } else {
            (done, cur.push(s.last()))
        }
    }
}

/// The words of `s` as `str::split_whitespace` yields them.
pub open spec fn words(s: Seq<char>) -> Seq<Seq<char>> {
    let (done, cur) = word_scan(s);
    if cur.len() == 0 {
        done
    } else {
        done.push(cur)
    }
}

pub fn split_words(s: &Vec<char>) -> (res: Vec<Vec<char>>)
    ensures
        views(res@) == words(s@),
{
    let mut res: Vec<Vec<char>> = Vec::new();
    let mut cur: Vec<char> = Vec::new();
    let mut i: usize = 0;
    while i < s.len()
        invariant
            i <= s@.len(),
            (views(res@), cur@) == word_scan(s@.take(i as int)),
        decreases s.len() - i,
    {
        assert(s@.take(i + 1).drop_last() =~= s@.take(i as int));
        let c = s[i];
        if is_space_char(c) {
            if cur.len() > 0 {
                let ghost before = views(res@);
                res.push(cur);
                assert(views(res@) =~= before.push(res@.last()@));
            }
            cur = Vec::new();
        } else {
            cur.push(c);
        }
        i = i + 1;
    }
    assert(s@.take(s@.len() as int) =~= s@);
    if cur.len() > 0 {
        let ghost before = views(res@);
        res.push(cur);
        assert(views(res@) =~= before.push(res@.last()@));
    }
    res
}

/// The ASCII digit for `d < 10`.
pub open spec fn digit_char(d: nat) -> char {
    (48 + d) as char
}

/// The decimal numeral of `n`, without leading zeros.
pub open spec fn decimal(n: nat) -> Seq<char>
    decreases n,
{
    if n < 10 {
        seq![digit_char(n)]
    } else {
        decimal(n / 10).push(digit_char(n % 10))
    }
}

/// Appends the decimal numeral of `n` to `s`.
pub fn push_decimal(s: &mut String, n: u64)
    ensures
        final(s)@ == old(s)@ + decimal(n as nat),
    decreases n,
{
    if n >= 10 {
        push_decimal(s, n / 10);
    }
    let d = (n % 10) as u8;
    let c = (d + 48) as char;
    assert(c == digit_char((n % 10) as nat));
    push_char(s, c);
    assert(old(s)@ + decimal(n as nat) =~= (if n >= 10 { old(s)@ + decimal((n / 10) as nat) } else { old(s)@ }).push(c));
}

pub open spec fn is_digit(c: char) -> bool {
    '0' <= c && c <= '9'
}

/// The number that a string of ASCII digits denotes.
pub open spec fn digits_value(s: Seq<char>) -> nat
    decreases s.len(),
{
    if s.len() == 0 {
        0
    } else {
        digits_value(s.drop_last()) * 10 + (s.last() as nat - 48) as nat
    }
}

/// The digits part of an unsigned numeral: `s` without one leading `'+'`.
pub open spec fn unsigned_body(s: Seq<char>) -> Seq<char> {
    if s.len() > 0 && s[0] == '+' {
        s.drop_first()
    } else {
        s
    }
}

pub open spec fn all_digits(s: Seq<char>) -> bool {
    forall|i: int| 0 <= i < s.len() ==> is_digit(#[trigger] s[i])
}

/// What `str::parse::<u64>` gives: an optional `'+'`, then one or more ASCII
/// digits whose value fits in a `u64`.
pub open spec fn parsed_u64(s: Seq<char>) -> Option<u64> {
    let body = unsigned_body(s);
    if body.len() > 0 && all_digits(body) && digits_value(body) <= u64::MAX {
        Some(digits_value(body) as u64)
    } else {
        None
    }
}

pub fn parse_u64(s: &Vec<char>) -> (res: Option<u64>)
    ensures
        res == parsed_u64(s@),
{
    let start: usize = if s.len() > 0 && s[0] == '+' { 1 } else { 0 };
    let ghost body = unsigned_body(s@);
    assert(body =~= s@.subrange(start as int, s@.len() as int));
    if start == s.len() {
        return None;
    }
    let mut acc: u64 = 0;
    let mut overflow = false;
    let mut i = start;
    while i < s.len()
        invariant
            start <= i <= s@.len(),
            body == s@.subrange(start as int, s@.len() as int),
            body == unsigned_body(s@),
            forall|j: int| start <= j < i ==> is_digit(#[trigger] s@[j]),
            !overflow ==> acc as nat == digits_value(s@.subrange(start as int, i as int)),
            overflow ==> digits_value(s@.subrange(start as int, i as int)) > u64::MAX,
        decreases s.len() - i,
    {
        let c = s[i];
        if !('0' <= c && c <= '9') {
            assert(body[i - start] == c);
            assert(!is_digit(body[i - start]));
            return None;
        }
        let ghost prefix = s@.subrange(start as int, i as int);
        assert(s@.subrange(start as int, i + 1).drop_last() =~= prefix);
        let d = ((c as u32) - 48) as u64;
        if !overflow {
            match acc.checked_mul(10) {
                Some(m) => match m.checked_add(d) {
                    Some(v) => {
                        acc = v;
                    },
                    None => {
                        overflow = true;
                    },
                },
                None => {
                    overflow = true;
                },
            }
        }
        i = i + 1;
    }
    assert(s@.subrange(start as int, s@.len() as int) == body);
    assert forall|j: int| 0 <= j < body.len() implies is_digit(#[trigger] body[j]) by {
        assert(body[j] == s@[start + j]);
    }
    if overflow {
        None
    } else {
        Some(acc)
    }
}

/// `s` with every occurrence of `c` replaced by `rep`.
pub open spec fn replace_char(s: Seq<char>, c: char, rep: Seq<char>) -> Seq<char>
    decreases s.len(),
{
    if s.len() == 0 {
        seq![]
    } else {
        replace_char(s.drop_last(), c, rep) + (if s.last() == c {
            rep
        } else {
            seq![s.last()]
        })
    }
}

/// Appends `s` to `out`, with every occurrence of `c` replaced by `rep`.
pub fn push_replacing(out: &mut String, s: &str, c: char, rep: &str)
    ensures
        final(out)@ == old(out)@ + replace_char(s@, c, rep@),
{
    let v = chars_of(s);
    let mut i: usize = 0;
    while i < v.len()
        invariant
            v@ == s@,
            i <= v@.len(),
            out@ == old(out)@ + replace_char(v@.take(i as int), c, rep@),
        decreases v.len() - i,
    {
        assert(v@.take(i + 1).drop_last() =~= v@.take(i as int));
        let ghost before = out@;
        if v[i] == c {
            out.append(rep);
        } else {
            push_char(out, v[i]);
        }
        assert(out@ =~= old(out)@ + replace_char(v@.take(i + 1), c, rep@));
        i = i + 1;
    }
    assert(v@.take(v@.len() as int) =~= v@);
}


/// `s` without its leading whitespace, as `str::trim_start` gives it.
pub open spec fn trim_start(s: Seq<char>) -> Seq<char>
    decreases s.len(),
{
    if s.len() > 0 && is_space(s[0]) {
        trim_start(s.drop_first())
    } else {
        s
    }
}

/// Where `trim_start` begins in `s`.
pub fn trimmed_start(s: &Vec<char>) -> (j: usize)
    ensures
        j <= s@.len(),
        trim_start(s@) == s@.subrange(j as int, s@.len() as int),
{
    let mut j: usize = 0;
    assert(s@.subrange(0, s@.len() as int) =~= s@);
    while j < s.len() && is_space_char(s[j])
        invariant
            j <= s@.len(),
            trim_start(s@) == trim_start(s@.subrange(j as int, s@.len() as int)),
        decreases s.len() - j,
    {
        assert(s@.subrange(j as int, s@.len() as int).drop_first() =~= s@.subrange(
            j + 1,
            s@.len() as int,
        ));
        j = j + 1;
    }
    j
}

/// The part of `s` before its first `':'` (all of `s` when it has none): the
/// first piece of `s.split(':')`.
pub open spec fn before_colon(s: Seq<char>) -> Seq<char>
    decreases s.len(),
{
    if s.len() == 0 || s[0] == ':' {
        seq![]
    } else {
        seq![s[0]] + before_colon(s.drop_first())
    }
}

/// The length of `before_colon(s)`.
pub fn colon_prefix_len(s: &Vec<char>) -> (i: usize)
    ensures
        i <= s@.len(),
        before_colon(s@) == s@.take(i as int),
{
    let mut i: usize = 0;
    assert(s@.skip(0) =~= s@);
    assert(s@.take(0) =~= seq![]);
    while i < s.len() && s[i] != ':'
        invariant
            i <= s@.len(),
            before_colon(s@) == s@.take(i as int) + before_colon(s@.skip(i as int)),
        decreases s.len() - i,
    {
        assert(s@.skip(i as int).drop_first() =~= s@.skip(i + 1));
        assert(s@.take(i as int) + seq![s@[i as int]] =~= s@.take(i + 1));
        assert(s@.take(i as int) + (seq![s@[i as int]] + before_colon(s@.skip(i + 1))) =~= s@.take(
            i + 1,
        ) + before_colon(s@.skip(i + 1)));
        i = i + 1;
    }
    assert(before_colon(s@.skip(i as int)) =~= seq![]);
    assert(s@.take(i as int) + seq![] =~= s@.take(i as int));
    i
}

/// No two entries of `v` are equal.
pub open spec fn no_duplicates(v: Seq<Seq<char>>) -> bool {
    forall|i: int, j: int| 0 <= i < v.len() && 0 <= j < v.len() && i != j ==> v[i] != v[j]
}

/// The set of entries of `v`.
pub open spec fn listed(v: Seq<Seq<char>>) -> Set<Seq<char>> {
    Set::new(|x: Seq<char>| v.contains(x))
}

/// Whether `name` is among `v`.
pub fn contains_chars(v: &Vec<Vec<char>>, name: &Vec<char>) -> (r: bool)
    ensures
        r == views(v@).contains(name@),
{
    let mut i: usize = 0;
    while i < v.len()
        invariant
            i <= v@.len(),
            forall|j: int| 0 <= j < i ==> #[trigger] v@[j]@ != name@,
        decreases v.len() - i,
    {
        if has_at(&v[i], 0, name) && v[i].len() == name.len() {
            assert(v@[i as int]@.subrange(0, v@[i as int]@.len() as int) =~= v@[i as int]@);
            assert(views(v@)[i as int] == name@);
            return true;
        }
        proof {
            if v@[i as int]@ == name@ {
                assert(v@[i as int]@.subrange(0, v@[i as int]@.len() as int) =~= v@[i as int]@);
                assert(v@[i as int]@.subrange(0, v@[i as int]@.len() as int).subrange(0, name@.len() as int) =~= name@);
            }
        }
        i = i + 1;
    }
    assert forall|k: int| 0 <= k < views(v@).len() implies views(v@)[k] != name@ by {
        assert(views(v@)[k] == v@[k]@);
    }
    false
}

/// Adds `name` to `v` unless it is there already.
pub fn insert_absent(v: &mut Vec<Vec<char>>, name: Vec<char>)
    requires
        no_duplicates(views(old(v)@)),
    ensures
        no_duplicates(views(final(v)@)),
        listed(views(final(v)@)) == listed(views(old(v)@)).insert(name@),
{
    if !contains_chars(v, &name) {
        let ghost before = views(v@);
        let ghost n = name@;
        v.push(name);
        assert(views(v@) =~= before.push(n));
        assert forall|x: Seq<char>| #[trigger] before.push(n).contains(x) <==> (before.contains(x) || x == n) by {
            if before.contains(x) {
                let k = choose|k: int| 0 <= k < before.len() && before[k] == x;
                assert(before.push(n)[k] == x);
            }
            if x == n {
                assert(before.push(n)[before.len() as int] == x);
            }
            if before.push(n).contains(x) {
                let k = choose|k: int| 0 <= k < before.len() + 1 && before.push(n)[k] == x;
                if k < before.len() {
                    assert(before[k] == x);
                }
            }
        }
        assert(listed(views(v@)) =~= listed(before).insert(n));
    } else {
        assert(listed(views(v@)) =~= listed(views(v@)).insert(name@));
    }
}

/// The views of a sequence of strings.
pub open spec fn string_views(v: Seq<String>) -> Seq<Seq<char>> {
    v.map_values(|x: String| x@)
}

/// The same entries as strings.
pub fn strings_of(v: &Vec<Vec<char>>) -> (res: Vec<String>)
    ensures
        string_views(res@) == views(v@),
{
    let mut res: Vec<String> = Vec::new();
    let mut i: usize = 0;
    while i < v.len()
        invariant
            i <= v@.len(),
            string_views(res@) == views(v@).take(i as int),
        decreases v.len() - i,
    {
        let ghost before = string_views(res@);
        res.push(string_of(&v[i]));
        assert(string_views(res@) =~= before.push(v@[i as int]@));
        assert(views(v@).take(i + 1) =~= views(v@).take(i as int).push(v@[i as int]@));
        i = i + 1;
    }
    assert(views(v@).take(v@.len() as int) =~= views(v@));
    res
}

} // verus!
