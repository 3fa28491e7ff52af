use vstd::prelude::*;

verus! {

// ---------------------------------------------------------------------------
// Specifications of the string operations the parsers use, over character
// sequences, following the behaviour of the standard library's `str` methods.
// ---------------------------------------------------------------------------

/// Unicode `White_Space`, the characters `char::is_whitespace` accepts.
pub open spec fn is_ws(c: char) -> bool {
    let u = c as u32;
    ||| 9 <= u <= 13
    ||| u == 32
    ||| u == 0x85
    ||| u == 0xa0
    ||| u == 0x1680
    ||| 0x2000 <= u <= 0x200a
    ||| u == 0x2028
    ||| u == 0x2029
    ||| u == 0x202f
    ||| u == 0x205f
    ||| u == 0x3000
}

/// `s` without its leading whitespace.
pub open spec fn trim_start(s: Seq<char>) -> Seq<char>
    decreases s.len(),
{
    if s.len() > 0 && is_ws(s[0]) {
        trim_start(s.drop_first())
    } else {
        s
    }
}

/// `s` without its trailing whitespace.
pub open spec fn trim_end(s: Seq<char>) -> Seq<char>
    decreases s.len(),
{
    if s.len() > 0 && is_ws(s.last()) {
        trim_end(s.drop_last())
    } else {
        s
    }
}

/// `s` without leading and trailing whitespace (`str::trim`).
pub open spec fn trim(s: Seq<char>) -> Seq<char> {
    trim_end(trim_start(s))
}

/// The pieces of `s` between occurrences of `c` (`str::split` on a char):
/// one more piece than there are occurrences, empty pieces included.
pub open spec fn split(s: Seq<char>, c: char) -> Seq<Seq<char>>
    decreases s.len(),
{
    if s.len() == 0 {
        seq![Seq::<char>::empty()]
    } else {
        let p = split(s.drop_last(), c);
        if s.last() == c {
            p.push(Seq::<char>::empty())
        } else {
            p.update(p.len() - 1, p.last().push(s.last()))
        }
    }
}

/// `t` without one trailing carriage return.
pub open spec fn strip_cr(t: Seq<char>) -> Seq<char> {
    if t.len() > 0 && t.last() == '\r' {
        t.drop_last()
    } else {
        t
    }
}

/// Each of `p` without one trailing carriage return.
pub open spec fn strip_cr_all(p: Seq<Seq<char>>) -> Seq<Seq<char>> {
    p.map_values(|t: Seq<char>| strip_cr(t))
}

/// The lines of `s` (`str::lines`): split at `\n`, a `\r` before the `\n`
/// removed, and no empty line after a final line ending.
pub open spec fn lines(s: Seq<char>) -> Seq<Seq<char>> {
    let p = split(s, '\n');
    let k = p.len() - 1;
    strip_cr_all(p.take(k)) + if p[k].len() == 0 {
        Seq::<Seq<char>>::empty()
    } else {
        seq![p[k]]
    }
}

/// All lines but the first (the header row of a CSV listing).
pub open spec fn after_header(ls: Seq<Seq<char>>) -> Seq<Seq<char>> {
    if ls.len() > 0 {
        ls.drop_first()
    } else {
        ls
    }
}

/// Whether `s` begins with `p`.
pub open spec fn starts_with(s: Seq<char>, p: Seq<char>) -> bool {
    p.len() <= s.len() && s.take(p.len() as int) == p
}

/// Whether `s` ends with `p`.
pub open spec fn ends_with(s: Seq<char>, p: Seq<char>) -> bool {
    p.len() <= s.len() && s.skip(s.len() - p.len()) == p
}

/// `s` with every leading repetition of `p` removed (`str::trim_start_matches`).
pub open spec fn strip_prefix_all(s: Seq<char>, p: Seq<char>) -> Seq<char>
    decreases s.len(),
{
    if p.len() > 0 && starts_with(s, p) {
        strip_prefix_all(s.skip(p.len() as int), p)
    } else {
        s
    }
}

/// `s` with every trailing repetition of `p` removed (`str::trim_end_matches`).
pub open spec fn strip_suffix_all(s: Seq<char>, p: Seq<char>) -> Seq<char>
    decreases s.len(),
{
    if p.len() > 0 && ends_with(s, p) {
        strip_suffix_all(s.take(s.len() - p.len()), p)
    } else {
        s
    }
}

/// Whether `pat` occurs in `s`.
pub open spec fn contains(s: Seq<char>, pat: Seq<char>) -> bool {
    exists|i: int| 0 <= i && i + pat.len() <= s.len() && #[trigger] s.subrange(i, i + pat.len()) == pat
}

/// Whether `c` is an ASCII decimal digit.
pub open spec fn is_digit(c: char) -> bool {
    '0' <= c <= '9'
}

/// The value of the decimal digits `d`.
pub open spec fn digits_value(d: Seq<char>) -> nat
    decreases d.len(),
{
    if d.len() == 0 {
        0
    } else {
        digits_value(d.drop_last()) * 10 + ((d.last() as u32) - 48) as nat
    }
}

/// Whether every character of `d` is a decimal digit.
pub open spec fn all_digits(d: Seq<char>) -> bool {
    forall|i: int| 0 <= i < d.len() ==> is_digit(#[trigger] d[i])
}

/// `s` without one leading `+`.
pub open spec fn unsigned_digits(s: Seq<char>) -> Seq<char> {
    if s.len() > 0 && s[0] == '+' {
        s.drop_first()
    } else {
        s
    }
}

/// `str::parse::<u64>`: an optional `+`, then at least one decimal digit,
/// the value fitting in 64 bits.
pub open spec fn parse_u64(s: Seq<char>) -> Option<u64> {
    let d = unsigned_digits(s);
    if d.len() > 0 && all_digits(d) && digits_value(d) <= u64::MAX {
        Some(digits_value(d) as u64)
    } else {
        None
    }
}

/// The words of `s` so far, and the word being read (`str::split_whitespace`).
pub open spec fn words_state(s: Seq<char>) -> (Seq<Seq<char>>, Seq<char>)
    decreases s.len(),
{
    if s.len() == 0 {
        (Seq::empty(), Seq::empty())
    } else {
        let (done, cur) = words_state(s.drop_last());
        if is_ws(s.last()) {
            if cur.len() > 0 {
                (done.push(cur), Seq::empty())
            } else {
                (done, Seq::empty())
            }
        } else {
            (done, cur.push(s.last()))
        }
    }
}

/// The whitespace-separated words of `s`.
pub open spec fn words(s: Seq<char>) -> Seq<Seq<char>> {
    let (done, cur) = words_state(s);
    if cur.len() > 0 {
        done.push(cur)
    } else {
        done
    }
}

/// The pieces of `v` that the ranges `rs` delimit.
pub open spec fn pieces(v: Seq<char>, rs: Seq<(usize, usize)>) -> Seq<Seq<char>> {
    rs.map_values(|r: (usize, usize)| v.subrange(r.0 as int, r.1 as int))
}

/// The contents of a list of strings.
pub open spec fn strings_view(v: Seq<String>) -> Seq<Seq<char>> {
    v.map_values(|s: String| s@)
}

/// Every range of `rs` lies within `v`.
pub open spec fn ranges_within(v: Seq<char>, rs: Seq<(usize, usize)>) -> bool {
    forall|k: int| 0 <= k < rs.len() ==> #[trigger] rs[k].0 <= rs[k].1 <= v.len()
}

// ---------------------------------------------------------------------------
// Executable operations, on the characters of a text and ranges into them.
// ---------------------------------------------------------------------------

/// The text that `String::from_utf8_lossy` makes of the bytes `bytes`.
pub uninterp spec fn lossy_text(bytes: Seq<u8>) -> Seq<char>;

/// Calls `String::from_utf8_lossy`. It is claimed that the result is
/// `lossy_text` of the bytes (the function depends on its argument alone),
/// and, as its documentation says of valid UTF-8, that bytes which are all
/// ASCII come back as the same characters.
#[verifier::external_body]
fn utf8_lossy(bytes: &[u8]) -> (s: String)
    ensures
        s@ == lossy_text(bytes@),
        (forall|i: int| 0 <= i < bytes@.len() ==> bytes@[i] < 128) ==> s@ == bytes@.map_values(
            |b: u8| b as char,
        ),
{
    String::from_utf8_lossy(bytes).into_owned()
}

/// The text of a command's output, invalid UTF-8 replaced by U+FFFD.
pub fn command_text(stdout: &[u8]) -> (s: String)
    ensures
        s@ == lossy_text(stdout@),
        (forall|i: int| 0 <= i < stdout@.len() ==> stdout@[i] < 128) ==> s@ == stdout@.map_values(
            |b: u8| b as char,
        ),
{
    utf8_lossy(stdout)
}

/// The characters of `s`.
pub fn chars_of(s: &str) -> (v: Vec<char>)
    ensures
        v@ == s@,
{
    let mut v: Vec<char> = Vec::new();
    for c in it: s.chars()
        invariant
            v@ == it.seq().take(it.index() as int),
    {
        v.push(c);
    }
    assert(v@ =~= s@);
    v
}

/// The characters `s[a..b]` as a `String`.
pub fn substring(s: &str, a: usize, b: usize) -> (r: String)
    requires
        a <= b <= s@.len(),
    ensures
        r@ == s@.subrange(a as int, b as int),
{
    String::from_str(s.substring_char(a, b))
}

/// Whether `c` is whitespace (`char::is_whitespace`).
pub fn is_whitespace(c: char) -> (b: bool)
    ensures
        b == is_ws(c),
{
    let u = c as u32;
    (9 <= u && u <= 13) || u == 32 || u == 0x85 || u == 0xa0 || u == 0x1680 || (0x2000 <= u && u
        <= 0x200a) || u == 0x2028 || u == 0x2029 || u == 0x202f || u == 0x205f || u == 0x3000
}

/// The range of `v[a..b]` left after trimming whitespace.
pub fn trim_range(v: &Vec<char>, a: usize, b: usize) -> (r: (usize, usize))
    requires
        a <= b <= v@.len(),
    ensures
        a <= r.0 <= r.1 <= b,
        v@.subrange(r.0 as int, r.1 as int) == trim(v@.subrange(a as int, b as int)),
{
    let mut i = a;
    while i < b && is_whitespace(v[i])
        invariant
            a <= i <= b,
            b <= v@.len(),
            trim_start(v@.subrange(a as int, b as int)) == trim_start(v@.subrange(i as int, b as int)),
        decreases b - i,
    {
        assert(v@.subrange(i as int, b as int).drop_first() =~= v@.subrange(i + 1, b as int));
        i = i + 1;
    }
    assert(trim_start(v@.subrange(i as int, b as int)) == v@.subrange(i as int, b as int));
    let mut j = b;
    while j > i && is_whitespace(v[j - 1])
        invariant
            a <= i <= j <= b,
            b <= v@.len(),
            trim_end(v@.subrange(i as int, b as int)) == trim_end(v@.subrange(i as int, j as int)),
        decreases j - i,
    {
        assert(v@.subrange(i as int, j as int).drop_last() =~= v@.subrange(i as int, j - 1));
        j = j - 1;
    }
    (i, j)
}

/// Whether `v[a..b]` equals `lit`.
pub fn range_eq(v: &Vec<char>, a: usize, b: usize, lit: &Vec<char>) -> (r: bool)
    requires
        a <= b <= v@.len(),
    ensures
        r == (v@.subrange(a as int, b as int) == lit@),
{
    if b - a != lit.len() {
        assert(v@.subrange(a as int, b as int).len() != lit@.len());
        return false;
    }
    let mut k: usize = 0;
    while k < lit.len()
        invariant
            k <= lit@.len(),
            b - a == lit@.len(),
            a <= b <= v@.len(),
            forall|m: int| 0 <= m < k ==> v@[a + m] == lit@[m],
        decreases lit@.len() - k,
    {
        if v[a + k] != lit[k] {
            assert(v@.subrange(a as int, b as int)[k as int] != lit@[k as int]);
            return false;
        }
        k = k + 1;
    }
    assert(v@.subrange(a as int, b as int) =~= lit@);
    true
}

/// Whether `v[a..b]` begins with `p`.
pub fn range_starts_with(v: &Vec<char>, a: usize, b: usize, p: &Vec<char>) -> (r: bool)
    requires
        a <= b <= v@.len(),
    ensures
        r == starts_with(v@.subrange(a as int, b as int), p@),
{
    if p.len() > b - a {
        return false;
    }
    let r = range_eq(v, a, a + p.len(), p);
    assert(v@.subrange(a as int, b as int).take(p@.len() as int) =~= v@.subrange(
        a as int,
        a + p@.len(),
    ));
    r
}

/// Whether `v[a..b]` ends with `p`.
pub fn range_ends_with(v: &Vec<char>, a: usize, b: usize, p: &Vec<char>) -> (r: bool)
    requires
        a <= b <= v@.len(),
    ensures
        r == ends_with(v@.subrange(a as int, b as int), p@),
{
    if p.len() > b - a {
        return false;
    }
    let r = range_eq(v, b - p.len(), b, p);
    assert(v@.subrange(a as int, b as int).skip(b - a - p@.len()) =~= v@.subrange(
        b - p@.len(),
        b as int,
    ));
    r
}

/// The range of `v[a..b]` left after removing every leading `p`.
pub fn strip_prefix_all_range(v: &Vec<char>, a: usize, b: usize, p: &Vec<char>) -> (r: usize)
    requires
        a <= b <= v@.len(),
    ensures
        a <= r <= b,
        v@.subrange(r as int, b as int) == strip_prefix_all(v@.subrange(a as int, b as int), p@),
{
    if p.len() == 0 {
        return a;
    }
    let mut i = a;
    while range_starts_with(v, i, b, p)
        invariant
            a <= i <= b,
            b <= v@.len(),
            p@.len() > 0,
            strip_prefix_all(v@.subrange(a as int, b as int), p@) == strip_prefix_all(
                v@.subrange(i as int, b as int),
                p@,
            ),
        decreases b - i,
    {
        assert(v@.subrange(i as int, b as int).skip(p@.len() as int) =~= v@.subrange(
            i + p@.len(),
            b as int,
        ));
        i = i + p.len();
    }
    i
}

/// The range of `v[a..b]` left after removing every trailing `p`.
pub fn strip_suffix_all_range(v: &Vec<char>, a: usize, b: usize, p: &Vec<char>) -> (r: usize)
    requires
        a <= b <= v@.len(),
    ensures
        a <= r <= b,
        v@.subrange(a as int, r as int) == strip_suffix_all(v@.subrange(a as int, b as int), p@),
{
    if p.len() == 0 {
        return b;
    }
    let mut j = b;
    while range_ends_with(v, a, j, p)
        invariant
            a <= j <= b,
            b <= v@.len(),
            p@.len() > 0,
            strip_suffix_all(v@.subrange(a as int, b as int), p@) == strip_suffix_all(
                v@.subrange(a as int, j as int),
                p@,
            ),
        decreases j - a,
    {
        assert(v@.subrange(a as int, j as int).take(j - a - p@.len()) =~= v@.subrange(
            a as int,
            j - p@.len(),
        ));
        j = j - p.len();
    }
    j
}

/// Whether `pat` occurs in `v[a..b]`.
pub fn range_contains(v: &Vec<char>, a: usize, b: usize, pat: &Vec<char>) -> (r: bool)
    requires
        a <= b <= v@.len(),
    ensures
        r == contains(v@.subrange(a as int, b as int), pat@),
{
    let ghost s = v@.subrange(a as int, b as int);
    if pat.len() == 0 {
        assert(s.subrange(0, 0 + pat@.len() as int) =~= pat@);
        return true;
    }
    if pat.len() > b - a {
        assert forall|i: int| 0 <= i && i + pat@.len() <= s.len() implies #[trigger] s.subrange(
            i,
            i + pat@.len(),
        ) != pat@ by {}
        return false;
    }
    let mut i = a;
    while i <= b - pat.len()
        invariant
            a <= i,
            b <= v@.len(),
            pat@.len() <= b - a,
            pat@.len() >= 1,
            i <= b - pat@.len() + 1,
            s == v@.subrange(a as int, b as int),
            forall|k: int| 0 <= k < i - a ==> #[trigger] s.subrange(k, k + pat@.len()) != pat@,
        decreases b - i,
    {
        if range_eq(v, i, i + pat.len(), pat) {
            assert(s.subrange(i - a, i - a + pat@.len()) =~= v@.subrange(
                i as int,
                i + pat@.len(),
            ));
            return true;
        }
        assert(s.subrange(i - a, i - a + pat@.len()) =~= v@.subrange(i as int, i + pat@.len()));
        i = i + 1;
    }
    assert forall|k: int| 0 <= k && k + pat@.len() <= s.len() implies #[trigger] s.subrange(
        k,
        k + pat@.len(),
    ) != pat@ by {
        assert(k < i - a);
    }
    false
}

/// The first piece of a split is built from the characters before the
/// first separator; a split always has at least one piece.
pub proof fn lemma_split_nonempty(s: Seq<char>, c: char)
    ensures
        split(s, c).len() >= 1,
    decreases s.len(),
{
    if s.len() > 0 {
        lemma_split_nonempty(s.drop_last(), c);
    }
}

/// The ranges of the pieces of `v[a..b]` between occurrences of `c`.
pub fn split_ranges(v: &Vec<char>, a: usize, b: usize, c: char) -> (rs: Vec<(usize, usize)>)
    requires
        a <= b <= v@.len(),
    ensures
        pieces(v@, rs@) == split(v@.subrange(a as int, b as int), c),
        ranges_within(v@, rs@),
        forall|k: int| 0 <= k < rs@.len() ==> a <= #[trigger] rs@[k].0,
{
    let mut rs: Vec<(usize, usize)> = Vec::new();
    let mut start = a;
    let mut i = a;
    assert(v@.subrange(a as int, a as int) =~= Seq::<char>::empty());
    while i < b
        invariant
            a <= start <= i <= b,
            b <= v@.len(),
            ranges_within(v@, rs@),
            forall|k: int| 0 <= k < rs@.len() ==> a <= #[trigger] rs@[k].0,
            pieces(v@, rs@).push(v@.subrange(start as int, i as int)) == split(
                v@.subrange(a as int, i as int),
                c,
            ),
        decreases b - i,
    {
        let ghost prev = split(v@.subrange(a as int, i as int), c);
        assert(v@.subrange(a as int, i + 1).drop_last() =~= v@.subrange(a as int, i as int));
        assert(v@.subrange(a as int, i + 1).last() == v@[i as int]);
        if v[i] == c {
            rs.push((start, i));
            start = i + 1;
            assert(pieces(v@, rs@) =~= prev);
            assert(v@.subrange(start as int, i + 1) =~= Seq::<char>::empty());
        } else {
            assert(v@.subrange(start as int, i + 1) =~= v@.subrange(start as int, i as int).push(
                v@[i as int],
            ));
            assert(pieces(v@, rs@).push(v@.subrange(start as int, i + 1)) =~= prev.update(
                prev.len() - 1,
                prev.last().push(v@[i as int]),
            ));
        }
        i = i + 1;
    }
    rs.push((start, b));
    assert(pieces(v@, rs@) =~= split(v@.subrange(a as int, b as int), c));
    rs
}

/// The ranges of the lines of `v`.
pub fn line_ranges(v: &Vec<char>) -> (ls: Vec<(usize, usize)>)
    ensures
        pieces(v@, ls@) == lines(v@),
        ranges_within(v@, ls@),
{
    let ps = split_ranges(v, 0, v.len(), '\n');
    assert(v@.subrange(0, v@.len() as int) =~= v@);
    let ghost p = split(v@, '\n');
    proof {
        lemma_split_nonempty(v@, '\n');
    }
    let n = ps.len();
    let mut ls: Vec<(usize, usize)> = Vec::new();
    let mut k: usize = 0;
    while k + 1 < n
        invariant
            n == ps@.len(),
            n >= 1,
            k + 1 <= n,
            pieces(v@, ps@) == p,
            ranges_within(v@, ps@),
            ranges_within(v@, ls@),
            pieces(v@, ls@).len() == k,
            forall|j: int| 0 <= j < k ==> #[trigger] pieces(v@, ls@)[j] == strip_cr(p[j]),
        decreases n - k,
    {
        let (x, y) = ps[k];
        let ghost old_ls = ls@;
        assert(x <= y <= v@.len());
        let ghost piece = v@.subrange(x as int, y as int);
        assert(piece == p[k as int]);
        assert(piece.len() > 0 ==> piece.last() == v@[y - 1]);
        if y > x && v[y - 1] == '\r' {
            ls.push((x, y - 1));
            assert(v@.subrange(x as int, y - 1) =~= v@.subrange(x as int, y as int).drop_last());
        } else {
            ls.push((x, y));
        }
        assert(pieces(v@, ls@)[k as int] == strip_cr(p[k as int]));
        assert forall|j: int| 0 <= j < k implies #[trigger] pieces(v@, ls@)[j] == strip_cr(p[j]) by {
            assert(ls@[j] == old_ls[j]);
            assert(pieces(v@, old_ls)[j] == strip_cr(p[j]));
        }
        k = k + 1;
    }
    let (x, y) = ps[n - 1];
    assert(x <= y <= v@.len());
    assert(v@.subrange(x as int, y as int) == p[n - 1]);
    let ghost before = pieces(v@, ls@);
    assert(before =~= strip_cr_all(p.take(n - 1)));
    if y > x {
        ls.push((x, y));
    }
    assert(pieces(v@, ls@) =~= lines(v@));
    ls
}

/// Every prefix of a digit string is worth at most the whole string.
proof fn lemma_digits_prefix(d: Seq<char>, k: int)
    requires
        0 <= k <= d.len(),
    ensures
        digits_value(d.take(k)) <= digits_value(d),
    decreases d.len() - k,
{
    if k < d.len() {
        lemma_digits_prefix(d, k + 1);
        assert(d.take(k + 1).drop_last() =~= d.take(k));
    } else {
        assert(d.take(k) =~= d);
    }
}

/// `str::parse::<u64>` of `v[a..b]`.
pub fn parse_u64_range(v: &Vec<char>, a: usize, b: usize) -> (r: Option<u64>)
    requires
        a <= b <= v@.len(),
    ensures
        r == parse_u64(v@.subrange(a as int, b as int)),
{
    let ghost s = v@.subrange(a as int, b as int);
    let start = if a < b && v[a] == '+' { a + 1 } else { a };
    let ghost d = v@.subrange(start as int, b as int);
    assert(d =~= unsigned_digits(s));
    if start == b {
        return None;
    }
    let mut acc: u64 = 0;
    let mut i = start;
    while i < b
        invariant
            start <= i <= b,
            b <= v@.len(),
            d == v@.subrange(start as int, b as int),
            s == v@.subrange(a as int, b as int),
            d == unsigned_digits(s),
            d.len() > 0,
            acc == digits_value(d.take(i - start)),
            forall|k: int| 0 <= k < i - start ==> is_digit(#[trigger] d[k]),
        decreases b - i,
    {
        let c = v[i];
        assert(d[i - start] == c);
        if !('0' <= c && c <= '9') {
            assert(!is_digit(d[i - start]));
            assert(!all_digits(d));
            assert(parse_u64(s) == None::<u64>);
            return None;
        }
        let digit = (c as u32 - 48) as u64;
        assert(d.take(i - start + 1).drop_last() =~= d.take(i - start));
        assert(d.take(i - start + 1).last() == c);
        assert(digits_value(d.take(i - start + 1)) == acc * 10 + digit);
        if acc > (u64::MAX - digit) / 10 {
            proof {
                lemma_digits_prefix(d, i - start + 1);
                assert(acc * 10 + digit > u64::MAX) by (nonlinear_arith)
                    requires
                        acc > (u64::MAX - digit) / 10,
                        digit <= 9,
                ;
                assert(digits_value(d) > u64::MAX);
                assert(parse_u64(s) == None::<u64>);
            }
            return None;
        }
        acc = acc * 10 + digit;
        i = i + 1;
    }
    assert(d.take(i - start) =~= d);
    Some(acc)
}

/// The ranges of the whitespace-separated words of `v[a..b]`.
pub fn word_ranges(v: &Vec<char>, a: usize, b: usize) -> (ws: Vec<(usize, usize)>)
    requires
        a <= b <= v@.len(),
    ensures
        pieces(v@, ws@) == words(v@.subrange(a as int, b as int)),
        ranges_within(v@, ws@),
{
    let mut ws: Vec<(usize, usize)> = Vec::new();
    let mut start = a;
    let mut i = a;
    assert(v@.subrange(a as int, a as int) =~= Seq::<char>::empty());
    while i < b
        invariant
            a <= start <= i <= b,
            b <= v@.len(),
            ranges_within(v@, ws@),
            words_state(v@.subrange(a as int, i as int)) == (
                pieces(v@, ws@),
                v@.subrange(start as int, i as int),
            ),
        decreases b - i,
    {
        assert(v@.subrange(a as int, i + 1).drop_last() =~= v@.subrange(a as int, i as int));
        assert(v@.subrange(a as int, i + 1).last() == v@[i as int]);
        if is_whitespace(v[i]) {
            if start < i {
                ws.push((start, i));
            }
            start = i + 1;
            assert(v@.subrange(start as int, i + 1) =~= Seq::<char>::empty());
        } else {
            assert(v@.subrange(start as int, i + 1) =~= v@.subrange(start as int, i as int).push(
                v@[i as int],
            ));
        }
        i = i + 1;
    }
    if start < b {
        ws.push((start, b));
    }
    assert(pieces(v@, ws@) =~= words(v@.subrange(a as int, b as int)));
    ws
}

} // verus!
