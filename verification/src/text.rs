//! Building blocks for the strings the surfaces show.
use vstd::prelude::*;

verus! {

/// `String::push` of std: appends one character to the end of the string.
pub assume_specification[ String::push ](s: &mut String, c: char)
    ensures
        final(s)@ == old(s)@.push(c),
;

/// The character of one decimal digit.
pub open spec fn digit_char(d: int) -> char {
    if d == 0 {
        '0'
    } else if d == 1 {
        '1'
    } else if d == 2 {
        '2'
    } else if d == 3 {
        '3'
    } else if d == 4 {
        '4'
    } else if d == 5 {
        '5'
    } else if d == 6 {
        '6'
    } else if d == 7 {
        '7'
    } else if d == 8 {
        '8'
    } else {
        '9'
    }
}

/// The decimal numeral of `n`, without leading zeros.
pub open spec fn decimal(n: nat) -> Seq<char>
    decreases n,
{
    if n < 10 {
        seq![digit_char(n as int)]
    } else {
        decimal(n / 10).push(digit_char((n % 10) as int))
    }
}

fn digit_of(d: u128) -> (c: char)
    requires
        d < 10,
    ensures
        c == digit_char(d as int),
{
    match d {
        0 => '0',
        1 => '1',
        2 => '2',
        3 => '3',
        4 => '4',
        5 => '5',
        6 => '6',
        7 => '7',
        8 => '8',
        _ => '9',
    }
}

/// The decimal numeral of `n`.
pub fn wide_decimal_string(n: u128) -> (r: String)
    ensures
        r@ == decimal(n as nat),
    decreases n,
{
    if n < 10 {
        let mut r = String::new();
        r.push(digit_of(n));
        assert(r@ =~= seq![digit_char(n as int)]);
        r
    } else {
        let mut r = wide_decimal_string(n / 10);
        r.push(digit_of(n % 10));
        r
    }
}

/// The decimal numeral of `n`.
pub fn decimal_string(n: u64) -> (r: String)
    ensures
        r@ == decimal(n as nat),
{
    wide_decimal_string(n as u128)
}

/// The decimal numeral of `n`, filled with zeros on the left up to `width` digits.
pub open spec fn padded(n: nat, width: nat) -> Seq<char> {
    let d = decimal(n);
    if d.len() >= width {
        d
    } else {
        Seq::new((width - d.len()) as nat, |i: int| '0') + d
    }
}

/// The decimal numeral of `n`, filled with zeros on the left up to `width` digits.
pub fn padded_string(n: u64, width: usize) -> (r: String)
    ensures
        r@ == padded(n as nat, width as nat),
{
    let d = decimal_string(n);
    let have: usize = d.as_str().unicode_len();
    if have >= width {
        return d;
    }
    let missing: usize = width - have;
    let mut r = String::new();
    let mut i: usize = 0;
    while i < missing
        invariant
            i <= missing,
            r@ == Seq::new(i as nat, |k: int| '0'),
        decreases missing - i,
    {
        r.push('0');
        i = i + 1;
        assert(r@ =~= Seq::new(i as nat, |k: int| '0'));
    }
    r.append(d.as_str());
    r
}

/// The characters of a text, one by one.
pub fn chars_of(s: &str) -> (v: Vec<char>)
    ensures
        v@ == s@,
{
    let mut v: Vec<char> = Vec::new();
    for c in it: s.chars()
        invariant
            v.len() == it.index(),
            it.seq() == s@,
            forall|k: int| 0 <= k < v.len() ==> v@[k] == it.seq()[k],
    {
        v.push(c);
    }
    assert(v@ =~= s@);
    v
}

/// The text made of the characters of `v` at positions `from..to`.
pub fn text_of(v: &Vec<char>, from: usize, to: usize) -> (r: String)
    requires
        from <= to <= v.len(),
    ensures
        r@ == v@.subrange(from as int, to as int),
{
    let mut r = String::new();
    let mut i: usize = from;
    while i < to
        invariant
            from <= i <= to <= v.len(),
            r@ == v@.subrange(from as int, i as int),
        decreases to - i,
    {
        r.push(v[i]);
        i = i + 1;
        assert(r@ =~= v@.subrange(from as int, i as int));
    }
    r
}

/// Whether two texts hold the same characters.
pub fn same_text(a: &str, b: &str) -> (r: bool)
    ensures
        r == (a@ == b@),
{
    let x = chars_of(a);
    let y = chars_of(b);
    same_chars(&x, &y)
}

/// Whether two character lists are equal.
pub fn same_chars(x: &Vec<char>, y: &Vec<char>) -> (r: bool)
    ensures
        r == (x@ == y@),
{
    if x.len() != y.len() {
        return false;
    }
    let mut i: usize = 0;
    while i < x.len()
        invariant
            i <= x.len(),
            x.len() == y.len(),
            forall|k: int| 0 <= k < i ==> x@[k] == y@[k],
        decreases x.len() - i,
    {
        if x[i] != y[i] {
            return false;
        }
        i = i + 1;
    }
    assert(x@ =~= y@);
    true
}

/// Whether `v` holds the characters of `pat` from position `at` on.
pub open spec fn matches_at(v: Seq<char>, at: int, pat: Seq<char>) -> bool {
    0 <= at && at + pat.len() <= v.len() && v.subrange(at, at + pat.len()) == pat
}

/// Whether `v` holds the characters of `pat` from position `at` on.
pub fn found_at(v: &Vec<char>, at: usize, pat: &Vec<char>) -> (r: bool)
    ensures
        r == matches_at(v@, at as int, pat@),
{
    if at > v.len() || pat.len() > v.len() - at {
        return false;
    }
    let mut i: usize = 0;
    while i < pat.len()
        invariant
            i <= pat.len(),
            at + pat.len() <= v.len(),
            forall|k: int| 0 <= k < i ==> v@[at + k] == pat@[k],
        decreases pat.len() - i,
    {
        if v[at + i] != pat[i] {
            assert(v@.subrange(at as int, at + pat.len())[i as int] != pat@[i as int]);
            return false;
        }
        i = i + 1;
    }
    assert(v@.subrange(at as int, at + pat.len()) =~= pat@);
    true
}

/// Whether the text begins with `pat`.
pub fn begins_with(s: &str, pat: &str) -> (r: bool)
    ensures
        r == pat@.is_prefix_of(s@),
{
    let r = found_at(&chars_of(s), 0, &chars_of(pat));
    r
}

/// Whether the text ends with `pat`.
pub fn finishes_with(s: &str, pat: &str) -> (r: bool)
    ensures
        r == pat@.is_suffix_of(s@),
{
    let v = chars_of(s);
    let p = chars_of(pat);
    if p.len() > v.len() {
        return false;
    }
    let r = found_at(&v, v.len() - p.len(), &p);
    r
}

/// The character of one lower-case hexadecimal digit.
pub open spec fn hex_char(d: int) -> char {
    if d < 10 {
        digit_char(d)
    } else if d == 10 {
        'a'
    } else if d == 11 {
        'b'
    } else if d == 12 {
        'c'
    } else if d == 13 {
        'd'
    } else if d == 14 {
        'e'
    } else {
        'f'
    }
}

/// The last `width` hexadecimal digits of `n`, with leading zeros.
pub open spec fn hex(n: nat, width: nat) -> Seq<char>
    decreases width,
{
    if width == 0 {
        Seq::empty()
    } else {
        hex(n / 16, (width - 1) as nat).push(hex_char((n % 16) as int))
    }
}

fn hex_digit_of(d: u32) -> (c: char)
    requires
        d < 16,
    ensures
        c == hex_char(d as int),
{
    match d {
        10 => 'a',
        11 => 'b',
        12 => 'c',
        13 => 'd',
        14 => 'e',
        15 => 'f',
        _ => digit_of(d as u128),
    }
}

/// The last `width` hexadecimal digits of `n`, with leading zeros.
pub fn hex_string(n: u32, width: usize) -> (r: String)
    ensures
        r@ == hex(n as nat, width as nat),
    decreases width,
{
    if width == 0 {
        let r = String::new();
        assert(r@ =~= Seq::<char>::empty());
        r
    } else {
        let mut r = hex_string(n / 16, width - 1);
        r.push(hex_digit_of(n % 16));
        r
    }
}

/// The two texts, one after the other.
pub fn cat2(a: &str, b: &str) -> (r: String)
    ensures
        r@ == a@ + b@,
{
    let mut r = a.to_owned();
    r.append(b);
    r
}

/// The three texts, one after the other.
pub fn cat3(a: &str, b: &str, c: &str) -> (r: String)
    ensures
        r@ == a@ + b@ + c@,
{
    let mut r = cat2(a, b);
    r.append(c);
    r
}

/// The four texts, one after the other.
pub fn cat4(a: &str, b: &str, c: &str, d: &str) -> (r: String)
    ensures
        r@ == a@ + b@ + c@ + d@,
{
    let mut r = cat3(a, b, c);
    r.append(d);
    r
}

/// The five texts, one after the other.
pub fn cat5(a: &str, b: &str, c: &str, d: &str, e: &str) -> (r: String)
    ensures
        r@ == a@ + b@ + c@ + d@ + e@,
{
    let mut r = cat4(a, b, c, d);
    r.append(e);
    r
}

/// The six texts, one after the other.
pub fn cat6(a: &str, b: &str, c: &str, d: &str, e: &str, f: &str) -> (r: String)
    ensures
        r@ == a@ + b@ + c@ + d@ + e@ + f@,
{
    let mut r = cat5(a, b, c, d, e);
    r.append(f);
    r
}

/// The seven texts, one after the other.
pub fn cat7(a: &str, b: &str, c: &str, d: &str, e: &str, f: &str, g: &str) -> (r: String)
    ensures
        r@ == a@ + b@ + c@ + d@ + e@ + f@ + g@,
{
    let mut r = cat6(a, b, c, d, e, f);
    r.append(g);
    r
}

/// The eight texts, one after the other.
pub fn cat8(a: &str, b: &str, c: &str, d: &str, e: &str, f: &str, g: &str, h: &str) -> (r: String)
    ensures
        r@ == a@ + b@ + c@ + d@ + e@ + f@ + g@ + h@,
{
    let mut r = cat7(a, b, c, d, e, f, g);
    r.append(h);
    r
}

/// The first place from `from` on where `v` holds `pat`.
pub open spec fn find_from(v: Seq<char>, pat: Seq<char>, from: int) -> Option<int>
    decreases v.len() + 1 - from,
{
    if from < 0 || from + pat.len() > v.len() {
        None
    } else if matches_at(v, from, pat) {
        Some(from)
    } else {
        find_from(v, pat, from + 1)
    }
}

/// The first place where the list holds `pat`.
pub fn find_chars(v: &Vec<char>, pat: &Vec<char>) -> (r: Option<usize>)
    ensures
        match r {
            Some(at) => find_from(v@, pat@, 0) == Some(at as int) && at + pat@.len() <= v@.len(),
            None => find_from(v@, pat@, 0) is None,
        },
{
    let mut i: usize = 0;
    while i <= v.len() && pat.len() <= v.len() - i
        invariant
            find_from(v@, pat@, 0) == find_from(v@, pat@, i as int),
            i <= v.len() + 1,
        decreases v.len() + 1 - i,
    {
        if found_at(v, i, pat) {
            return Some(i);
        }
        if i == v.len() {
            assert(find_from(v@, pat@, i + 1) is None);
            return None;
        }
        i = i + 1;
    }
    None
}

/// The last place of `c` in `s`, or -1 where there is none.
pub open spec fn last_place(s: Seq<char>, c: char) -> int
    decreases s.len(),
{
    if s.len() == 0 {
        -1
    } else if s.last() == c {
        s.len() - 1
    } else {
        last_place(s.drop_last(), c)
    }
}

/// The last place of `c` among the first `end` characters of the list.
pub fn last_place_of(v: &Vec<char>, end: usize, c: char) -> (r: Option<usize>)
    requires
        end <= v.len(),
    ensures
        match r {
            Some(at) => at < end && last_place(v@.take(end as int), c) == at,
            None => last_place(v@.take(end as int), c) == -1,
        },
{
    let mut i: usize = end;
    while i > 0
        invariant
            i <= end <= v.len(),
            last_place(v@.take(end as int), c) == last_place(v@.take(i as int), c),
        decreases i,
    {
        assert(v@.take(i as int).drop_last() =~= v@.take(i - 1));
        if v[i - 1] == c {
            return Some(i - 1);
        }
        i = i - 1;
    }
    None
}

/// The first `n` characters of the text, or all of it where it has fewer.
pub open spec fn head(s: Seq<char>, n: nat) -> Seq<char> {
    if s.len() <= n {
        s
    } else {
        s.take(n as int)
    }
}

/// The first `n` characters of the text, or all of it where it has fewer.
pub fn head_of(s: &str, n: usize) -> (r: String)
    ensures
        r@ == head(s@, n as nat),
{
    let v = chars_of(s);
    if v.len() <= n {
        s.to_owned()
    } else {
        let r = text_of(&v, 0, n);
        assert(v@.subrange(0, n as int) =~= v@.take(n as int));
        r
    }
}

/// The last `n` characters of the text, or all of it where it has fewer.
pub open spec fn tail(s: Seq<char>, n: nat) -> Seq<char> {
    if s.len() <= n {
        s
    } else {
        s.skip(s.len() - n)
    }
}

/// The last `n` characters of the text, or all of it where it has fewer.
pub fn tail_of(s: &str, n: usize) -> (r: String)
    ensures
        r@ == tail(s@, n as nat),
{
    let v = chars_of(s);
    if v.len() <= n {
        s.to_owned()
    } else {
        let r = text_of(&v, v.len() - n, v.len());
        assert(v@.subrange(v.len() - n, v.len() as int) =~= v@.skip(v.len() - n));
        r
    }
}

/// The texts, one after the other, with `sep` between each two.
pub open spec fn joined(parts: Seq<Seq<char>>, sep: Seq<char>) -> Seq<char>
    decreases parts.len(),
{
    if parts.len() == 0 {
        Seq::empty()
    } else if parts.len() == 1 {
        parts[0]
    } else {
        joined(parts.drop_last(), sep) + sep + parts.last()
    }
}

/// The contents of a list of texts.
pub open spec fn texts(v: Seq<String>) -> Seq<Seq<char>> {
    v.map_values(|t: String| t@)
}

/// The texts with the separator between them.
pub fn join_with(parts: &Vec<String>, sep: &str) -> (r: String)
    ensures
        r@ == joined(texts(parts@), sep@),
{
    let ghost all = texts(parts@);
    let mut r = String::new();
    let mut i: usize = 0;
    assert(r@ =~= joined(all.take(0), sep@));
    while i < parts.len()
        invariant
            i <= parts.len(),
            all == texts(parts@),
            r@ == joined(all.take(i as int), sep@),
        decreases parts.len() - i,
    {
        assert(all.take(i + 1).drop_last() =~= all.take(i as int));
        assert(all.take(i + 1).last() == parts@[i as int]@);
        if i == 0 {
            r = parts[i].clone();
        } else {
            r = cat3(r.as_str(), sep, parts[i].as_str());
        }
        i = i + 1;
    }
    assert(all.take(i as int) =~= all);
    r
}

/// An ending for a counted word: nothing for one, `s` for every other count.
pub open spec fn plural(n: int) -> Seq<char> {
    if n == 1 {
        ""@
    } else {
        "s"@
    }
}

/// An ending for a counted word: nothing for one, `s` for every other count.
pub fn plural_of(n: u64) -> (r: &'static str)
    ensures
        r@ == plural(n as int),
{
    if n == 1 {
        ""
    } else {
        "s"
    }
}

/// How many bytes the character takes in UTF-8.
pub open spec fn utf8_len(c: char) -> nat {
    if (c as int) < 0x80 {
        1
    } else if (c as int) < 0x800 {
        2
    } else if (c as int) < 0x1_0000 {
        3
    } else {
        4
    }
}

/// How many bytes the text takes in UTF-8.
pub open spec fn byte_len(s: Seq<char>) -> nat
    decreases s.len(),
{
    if s.len() == 0 {
        0
    } else {
        byte_len(s.drop_last()) + utf8_len(s.last())
    }
}

/// The longest beginning of `s`, from its first `n` characters on, that takes at most `cap` bytes
/// in UTF-8.
pub open spec fn fitting(s: Seq<char>, n: nat, cap: nat) -> Seq<char>
    decreases n,
{
    if n == 0 || n > s.len() {
        Seq::empty()
    } else if byte_len(s.take(n as int)) <= cap {
        s.take(n as int)
    } else {
        fitting(s, (n - 1) as nat, cap)
    }
}

/// The longest beginning of the text that takes at most `cap` bytes in UTF-8.
pub open spec fn byte_head(s: Seq<char>, cap: nat) -> Seq<char> {
    fitting(s, s.len(), cap)
}

proof fn byte_len_grows(s: Seq<char>, i: int, j: int)
    requires
        0 <= i <= j <= s.len(),
    ensures
        byte_len(s.take(i)) <= byte_len(s.take(j)),
        byte_len(s.take(j)) >= j,
    decreases j,
{
    if j > 0 {
        assert(s.take(j).drop_last() =~= s.take(j - 1));
        if i < j {
            byte_len_grows(s, i, j - 1);
        } else {
            byte_len_grows(s, j - 1, j - 1);
        }
    }
}

proof fn fitting_stops_at(s: Seq<char>, k: int, n: nat, cap: nat)
    requires
        0 <= k <= n <= s.len(),
        byte_len(s.take(k)) <= cap,
        k < s.len() ==> byte_len(s.take(k + 1)) > cap,
    ensures
        fitting(s, n, cap) == s.take(k),
    decreases n,
{
    if n == k {
        assert(s.take(0) =~= Seq::<char>::empty());
    } else {
        byte_len_grows(s, k + 1, n as int);
        fitting_stops_at(s, k, (n - 1) as nat, cap);
    }
}

/// How many bytes the character takes in UTF-8.
pub fn utf8_len_of(c: char) -> (r: usize)
    ensures
        r == utf8_len(c),
{
    let n: u32 = c as u32;
    if n < 0x80 {
        1
    } else if n < 0x800 {
        2
    } else if n < 0x1_0000 {
        3
    } else {
        4
    }
}

/// The longest beginning of the text that takes at most `cap` bytes in UTF-8, and whether that is
/// the whole text.
pub fn byte_head_of(s: &str, cap: usize) -> (r: (String, bool))
    ensures
        r.0@ == byte_head(s@, cap as nat),
        r.1 == (byte_len(s@) <= cap),
{
    let v = chars_of(s);
    let mut used: usize = 0;
    let mut i: usize = 0;
    assert(v@.take(0) =~= Seq::<char>::empty());
    while i < v.len()
        invariant
            i <= v.len(),
            v@ == s@,
            used == byte_len(v@.take(i as int)),
            used <= cap,
        decreases v.len() - i,
    {
        assert(v@.take(i + 1).drop_last() =~= v@.take(i as int));
        assert(v@.take(i + 1).last() == v@[i as int]);
        let more: usize = utf8_len_of(v[i]);
        if more > cap - used {
            proof {
                fitting_stops_at(v@, i as int, v@.len(), cap as nat);
                byte_len_grows(v@, i + 1, v@.len() as int);
                assert(v@.take(v@.len() as int) =~= v@);
                assert(v@.subrange(0, i as int) =~= v@.take(i as int));
            }
            return (text_of(&v, 0, i), false);
        }
        used = used + more;
        i = i + 1;
    }
    proof {
        assert(v@.take(i as int) =~= v@);
        fitting_stops_at(v@, i as int, v@.len(), cap as nat);
    }
    (s.to_owned(), true)
}

/// The numeral of `n`, filled with spaces on the left up to `width` characters.
pub open spec fn right_aligned(n: nat, width: nat) -> Seq<char> {
    let d = decimal(n);
    if d.len() >= width {
        d
    } else {
        Seq::new((width - d.len()) as nat, |i: int| ' ') + d
    }
}

/// The numeral of `n`, filled with spaces on the left up to `width` characters.
pub fn right_aligned_string(n: u64, width: usize) -> (r: String)
    ensures
        r@ == right_aligned(n as nat, width as nat),
{
    let d = decimal_string(n);
    let have: usize = d.as_str().unicode_len();
    if have >= width {
        return d;
    }
    let missing: usize = width - have;
    let mut r = String::new();
    let mut i: usize = 0;
    while i < missing
        invariant
            i <= missing,
            r@ == Seq::new(i as nat, |k: int| ' '),
        decreases missing - i,
    {
        r.push(' ');
        i = i + 1;
        assert(r@ =~= Seq::new(i as nat, |k: int| ' '));
    }
    r.append(d.as_str());
    r
}

/// The text, cut to `n` characters where it has more: the last of them is then an ellipsis.
pub open spec fn cut_right(s: Seq<char>, n: nat) -> Seq<char> {
    if s.len() <= n {
        s
    } else {
        head(s, if n == 0 { 0 } else { (n - 1) as nat }) + seq!['…']
    }
}

/// The text, cut to `n` characters where it has more: the last of them is then an ellipsis.
pub fn cut_right_of(s: &str, n: usize) -> (r: String)
    ensures
        r@ == cut_right(s@, n as nat),
{
    if s.unicode_len() <= n {
        return s.to_owned();
    }
    let keep: usize = if n == 0 {
        0
    } else {
        n - 1
    };
    let mut r = head_of(s, keep);
    r.push('…');
    assert(r@ =~= head(s@, keep as nat) + seq!['…']);
    r
}

/// A text cut on the right has at most `n` characters, and a text that fits is kept.
pub proof fn cut_right_fits(s: Seq<char>, n: nat)
    requires
        n > 0,
    ensures
        cut_right(s, n).len() <= n,
        s.len() <= n ==> cut_right(s, n) == s,
        s.len() > n ==> cut_right(s, n).len() == n,
{
}

/// Whether Unicode counts the character as white space.
pub open spec fn is_space(c: char) -> bool {
    let n = c as int;
    ||| 0x9 <= n <= 0xd
    ||| n == 0x20
    ||| n == 0x85
    ||| n == 0xa0
    ||| n == 0x1680
    ||| 0x2000 <= n <= 0x200a
    ||| n == 0x2028
    ||| n == 0x2029
    ||| n == 0x202f
    ||| n == 0x205f
    ||| n == 0x3000
}

/// Whether Unicode counts the character as white space.
pub fn is_space_char(c: char) -> (r: bool)
    ensures
        r == is_space(c),
{
    let n: u32 = c as u32;
    (0x9 <= n && n <= 0xd) || n == 0x20 || n == 0x85 || n == 0xa0 || n == 0x1680 || (0x2000 <= n
        && n <= 0x200a) || n == 0x2028 || n == 0x2029 || n == 0x202f || n == 0x205f || n == 0x3000
}

/// The text without the white space it begins with.
pub open spec fn trimmed_start(s: Seq<char>) -> Seq<char>
    decreases s.len(),
{
    if s.len() > 0 && is_space(s[0]) {
        trimmed_start(s.skip(1))
    } else {
        s
    }
}

/// The text without the white space it ends with.
pub open spec fn trimmed_end(s: Seq<char>) -> Seq<char>
    decreases s.len(),
{
    if s.len() > 0 && is_space(s.last()) {
        trimmed_end(s.drop_last())
    } else {
        s
    }
}

/// The text without the white space at both ends.
pub open spec fn trimmed(s: Seq<char>) -> Seq<char> {
    trimmed_end(trimmed_start(s))
}

/// The characters at positions `from..to`, without the white space at both ends.
pub fn trimmed_text(v: &Vec<char>, from: usize, to: usize) -> (r: String)
    requires
        from <= to <= v.len(),
    ensures
        r@ == trimmed(v@.subrange(from as int, to as int)),
{
    let ghost whole = v@.subrange(from as int, to as int);
    let mut a: usize = from;
    while a < to && is_space_char(v[a])
        invariant
            from <= a <= to <= v.len(),
            trimmed_start(whole) == trimmed_start(v@.subrange(a as int, to as int)),
        decreases to - a,
    {
        assert(v@.subrange(a as int, to as int).skip(1) =~= v@.subrange(a + 1, to as int));
        a = a + 1;
    }
    let ghost front = v@.subrange(a as int, to as int);
    assert(trimmed_start(whole) == front);
    let mut b: usize = to;
    while b > a && is_space_char(v[b - 1])
        invariant
            a <= b <= to <= v.len(),
            trimmed_end(front) == trimmed_end(v@.subrange(a as int, b as int)),
        decreases b - a,
    {
        assert(v@.subrange(a as int, b as int).drop_last() =~= v@.subrange(a as int, b - 1));
        b = b - 1;
    }
    text_of(v, a, b)
}

/// The last `n` characters of the text behind an ellipsis, where it has more than that.
pub open spec fn cut_left(s: Seq<char>, n: nat) -> Seq<char> {
    if s.len() <= n {
        s
    } else {
        "…"@ + s.skip(s.len() - n)
    }
}

/// The last `n` characters of the text behind an ellipsis, where it has more than that.
pub fn cut_left_of(s: &str, n: usize) -> (r: String)
    ensures
        r@ == cut_left(s@, n as nat),
{
    if s.unicode_len() <= n {
        return s.to_owned();
    }
    let end = tail_of(s, n);
    cat2("…", end.as_str())
}

/// A text cut on the left has at most `n` characters besides the ellipsis, and these are the end
/// of the whole text.
pub proof fn cut_left_keeps_the_end(s: Seq<char>, n: nat)
    ensures
        cut_left(s, n).len() <= n + 1,
        s.len() <= n ==> cut_left(s, n) == s,
        s.len() > n ==> cut_left(s, n).skip(1).len() == n && cut_left(s, n).skip(1).is_suffix_of(s),
{
    reveal_strlit("…");
    if s.len() > n {
        let end = s.skip(s.len() - n);
        assert(cut_left(s, n).skip(1) =~= end);
        assert(s.subrange(s.len() - end.len(), s.len() as int) =~= end);
    }
}

/// Two numbers with the same decimal text are the same.
pub proof fn decimal_is_injective(a: nat, b: nat)
    requires
        decimal(a) == decimal(b),
    ensures
        a == b,
    decreases a,
{
    let x = decimal(a);
    let y = decimal(b);
    if a >= 10 && b >= 10 {
        assert(x.drop_last() =~= decimal(a / 10));
        assert(y.drop_last() =~= decimal(b / 10));
        decimal_is_injective(a / 10, b / 10);
        assert(x.last() == digit_char((a % 10) as int));
        assert(y.last() == digit_char((b % 10) as int));
        assert(a % 10 == b % 10);
    } else if a >= 10 {
        assert(decimal(a / 10).len() > 0);
        assert(x.len() > 1 && y.len() == 1);
    } else if b >= 10 {
        assert(decimal(b / 10).len() > 0);
        assert(y.len() > 1 && x.len() == 1);
    } else {
        assert(x[0] == digit_char(a as int));
        assert(y[0] == digit_char(b as int));
    }
}

/// A numeral is that of its number without the last digit, with the last digit behind it; the
/// digits follow each other as the characters from `0` to `9` do.
pub proof fn numerals_are_made_of_digits(high: nat, digit: nat)
    requires
        digit < 10,
    ensures
        decimal(digit).len() == 1,
        decimal(digit)[0] as int == '0' as int + digit,
        high > 0 ==> decimal(10 * high + digit) == decimal(high).push(decimal(digit)[0]),
{
    assert((10 * high + digit) / 10 == high);
    assert((10 * high + digit) % 10 == digit);
}

/// A filled numeral ends in the numeral, has zeros before it, and has the width where the numeral
/// is not wider itself.
pub proof fn filled_numerals_end_in_the_numeral(n: nat, width: nat, i: int)
    ensures
        padded(n, width).len() == if decimal(n).len() < width {
            width
        } else {
            decimal(n).len()
        },
        0 <= i < padded(n, width).len() - decimal(n).len() ==> padded(n, width)[i] == '0',
        0 <= i < decimal(n).len() ==> padded(n, width)[padded(n, width).len() - decimal(n).len() + i]
            == decimal(n)[i],
{
}

/// A search finds the first place from its start on, and finds none only where there is none.
pub proof fn searches_find_the_first_place(v: Seq<char>, pat: Seq<char>, from: int)
    requires
        0 <= from,
    ensures
        find_from(v, pat, from) matches Some(at) ==> {
            &&& from <= at
            &&& at + pat.len() <= v.len()
            &&& v.subrange(at, at + pat.len()) == pat
            &&& forall|j: int|
                from <= j < at ==> !(#[trigger] v.subrange(j, j + pat.len()) == pat)
        },
        find_from(v, pat, from) is None ==> forall|j: int|
            from <= j && j + pat.len() <= v.len() ==> !(#[trigger] v.subrange(j, j + pat.len()) == pat),
    decreases v.len() + 1 - from,
{
    if from + pat.len() <= v.len() && !matches_at(v, from, pat) {
        searches_find_the_first_place(v, pat, from + 1);
    }
}

/// The last place of a character holds it, and no place behind it does; without one the character
/// is nowhere in the text.
pub proof fn last_places_are_last(s: Seq<char>, c: char)
    ensures
        -1 <= last_place(s, c) < s.len(),
        last_place(s, c) >= 0 ==> s[last_place(s, c)] == c,
        forall|j: int| last_place(s, c) < j < s.len() ==> #[trigger] s[j] != c,
    decreases s.len(),
{
    if s.len() > 0 && s.last() != c {
        let init = s.drop_last();
        last_places_are_last(init, c);
        assert forall|j: int| last_place(s, c) < j < s.len() implies #[trigger] s[j] != c by {
            if j < s.len() - 1 {
                assert(init[j] == s[j]);
            }
        }
    }
}

/// Texts are joined part by part: the separator stands between any two of them, and nowhere else.
pub proof fn joined_texts_hold_every_part(a: Seq<Seq<char>>, b: Seq<Seq<char>>, sep: Seq<char>)
    requires
        a.len() > 0,
        b.len() > 0,
    ensures
        joined(a + b, sep) == joined(a, sep) + sep + joined(b, sep),
        joined(seq![a[0]], sep) == a[0],
    decreases b.len(),
{
    if b.len() == 1 {
        assert((a + b).drop_last() =~= a);
        assert((a + b).last() == b[0]);
        assert(joined(a + b, sep) =~= joined(a, sep) + sep + joined(b, sep));
    } else {
        joined_texts_hold_every_part(a, b.drop_last(), sep);
        assert((a + b).drop_last() =~= a + b.drop_last());
        assert((a + b).last() == b.last());
        assert(joined(a + b, sep) =~= joined(a, sep) + sep + joined(b, sep));
    }
}

proof fn lemma_trimmed_end(s: Seq<char>)
    ensures
        trimmed_end(s).is_prefix_of(s),
        trimmed_end(s).len() > 0 ==> !is_space(trimmed_end(s).last()),
    decreases s.len(),
{
    if s.len() > 0 && is_space(s.last()) {
        lemma_trimmed_end(s.drop_last());
        assert(trimmed_end(s) =~= s.subrange(0, trimmed_end(s).len() as int));
    } else {
        assert(s =~= s.subrange(0, s.len() as int));
    }
}

proof fn lemma_trimmed_start(s: Seq<char>)
    ensures
        trimmed_start(s).len() > 0 ==> !is_space(trimmed_start(s)[0]),
        trimmed_start(s).len() <= s.len(),
    decreases s.len(),
{
    if s.len() > 0 && is_space(s[0]) {
        lemma_trimmed_start(s.skip(1));
    }
}

/// A trimmed text has no white space at its ends, white space before or behind a text does not
/// count, and a text without any at its ends stays whole. Spaces, tabs and line ends are white
/// space; letters and digits are not.
pub proof fn trimmed_texts_have_no_space_around(s: Seq<char>, c: char)
    ensures
        trimmed(s).len() > 0 ==> !is_space(trimmed(s)[0]) && !is_space(trimmed(s).last()),
        is_space(c) ==> trimmed(seq![c] + s) == trimmed(s),
        s.len() > 0 && !is_space(s[0]) && !is_space(s.last()) ==> trimmed(s) == s,
        s.len() > 0 && !is_space(s[0]) && is_space(c) ==> trimmed(s.push(c)) == trimmed(s),
        is_space(' ') && is_space('\t') && is_space('\n') && is_space('\r'),
        '0' <= c <= '9' || 'a' <= c <= 'z' || 'A' <= c <= 'Z' ==> !is_space(c),
{
    lemma_trimmed_start(s);
    lemma_trimmed_end(trimmed_start(s));
    if trimmed(s).len() > 0 {
        assert(trimmed_start(s).subrange(0, trimmed(s).len() as int)[0] == trimmed_start(s)[0]);
    }
    if is_space(c) {
        assert((seq![c] + s).skip(1) =~= s);
        assert(s.push(c).drop_last() =~= s);
    }
}

/// The longest beginning that takes no more than the given bytes: it is a beginning, it fits, and
/// with one character more it would not.
pub proof fn byte_heads_are_longest(s: Seq<char>, n: nat, cap: nat)
    requires
        n <= s.len(),
    ensures
        fitting(s, n, cap).len() <= n,
        fitting(s, n, cap) == s.take(fitting(s, n, cap).len() as int),
        byte_len(fitting(s, n, cap)) <= cap,
        fitting(s, n, cap).len() < n ==> byte_len(s.take(fitting(s, n, cap).len() as int + 1)) > cap,
    decreases n,
{
    if n > 0 {
        if byte_len(s.take(n as int)) > cap {
            byte_heads_are_longest(s, (n - 1) as nat, cap);
        }
    } else {
        assert(s.take(0) =~= Seq::<char>::empty());
    }
}

/// One thing has no ending, every other number of things has one.
pub proof fn only_one_is_singular(n: int)
    ensures
        n == 1 ==> plural(n) == ""@,
        n != 1 ==> plural(n) == "s"@,
{
}

/// A text cut on the right begins as the whole text does and ends in an ellipsis.
pub proof fn cut_right_keeps_the_beginning(s: Seq<char>, n: nat, i: int)
    requires
        n > 0,
        s.len() > n,
    ensures
        0 <= i < n - 1 ==> cut_right(s, n)[i] == s[i],
        cut_right(s, n).last() == '…',
{
}

/// Hexadecimal numerals have the digits from `0` to `9` and from `a` to `f`, the last one last, and
/// as many as were asked for.
pub proof fn hexadecimals_are_made_of_digits(high: nat, digit: nat, width: nat)
    requires
        digit < 16,
    ensures
        digit < 10 ==> hex_char(digit as int) as int == '0' as int + digit,
        digit >= 10 ==> hex_char(digit as int) as int == 'a' as int + digit - 10,
        hex(16 * high + digit, width + 1) == hex(high, width).push(hex_char(digit as int)),
        hex(high, 0).len() == 0,
{
    assert((16 * high + digit) / 16 == high);
    assert((16 * high + digit) % 16 == digit);
}

/// A beginning is the first characters of a text and an end its last ones; a text that has no more
/// than that is kept whole.
pub proof fn beginnings_and_ends_are_cut(s: Seq<char>, n: nat, i: int)
    ensures
        s.len() <= n ==> head(s, n) == s && tail(s, n) == s,
        s.len() > n ==> head(s, n).len() == n && tail(s, n).len() == n,
        s.len() > n && 0 <= i < n ==> head(s, n)[i] == s[i] && tail(s, n)[n - 1 - i] == s[s.len() - 1
            - i],
{
}

/// A numeral that is set to the right ends in the numeral and has spaces before it.
pub proof fn numerals_are_set_to_the_right(n: nat, width: nat, i: int)
    ensures
        right_aligned(n, width).len() == if decimal(n).len() < width {
            width
        } else {
            decimal(n).len()
        },
        0 <= i < right_aligned(n, width).len() - decimal(n).len() ==> right_aligned(n, width)[i] == ' ',
        0 <= i < decimal(n).len() ==> right_aligned(n, width)[right_aligned(n, width).len()
            - decimal(n).len() + i] == decimal(n)[i],
{
}

} // verus!
