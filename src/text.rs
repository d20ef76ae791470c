use vstd::prelude::*;
use vstd::string::*;

verus! {

broadcast use vstd::string::group_string_axioms;

/// Unicode `White_Space`, the set that `char::is_whitespace` tests.
pub open spec fn is_white_space(c: char) -> bool {
    let u = c as u32;
    (0x09 <= u <= 0x0D) || u == 0x20 || u == 0x85 || u == 0xA0 || u == 0x1680 || (0x2000 <= u
        <= 0x200A) || u == 0x2028 || u == 0x2029 || u == 0x202F || u == 0x205F || u == 0x3000
}

/// `s` without its leading white space.
pub open spec fn trim_front(s: Seq<char>) -> Seq<char>
    decreases s.len(),
{
    if s.len() > 0 && is_white_space(s[0]) {
        trim_front(s.drop_first())
    } else {
        s
    }
}

/// `s` without its trailing white space.
pub open spec fn trim_back(s: Seq<char>) -> Seq<char>
    decreases s.len(),
{
    if s.len() > 0 && is_white_space(s.last()) {
        trim_back(s.drop_last())
    } else {
        s
    }
}

/// `s` without white space at either end, as `str::trim` gives it.
pub open spec fn trimmed(s: Seq<char>) -> Seq<char> {
    trim_back(trim_front(s))
}

/// `s` holds of nothing but white space (or nothing at all).
pub open spec fn is_blank(s: Seq<char>) -> bool {
    trimmed(s).len() == 0
}

/// `needle` occurs in `hay` as a contiguous run.
pub open spec fn contains_seq(hay: Seq<char>, needle: Seq<char>) -> bool {
    exists|i: int| 0 <= i <= hay.len() - needle.len() && #[trigger] hay.subrange(i, i + needle.len()) == needle
}

pub open spec fn is_digit(c: char) -> bool {
    '0' <= c <= '9'
}

pub open spec fn all_digits(s: Seq<char>) -> bool {
    forall|i: int| 0 <= i < s.len() ==> is_digit(#[trigger] s[i])
}

/// Decimal value of a run of digits.
pub open spec fn digits_value(s: Seq<char>) -> int
    decreases s.len(),
{
    if s.len() == 0 {
        0
    } else {
        digits_value(s.drop_last()) * 10 + (s.last() as int - '0' as int)
    }
}

/// The digits of an unsigned number as `str::parse` reads it: one optional
/// leading `+`.
pub open spec fn unsigned_digits(s: Seq<char>) -> Seq<char> {
    if s.len() > 0 && s[0] == '+' {
        s.drop_first()
    } else {
        s
    }
}

/// `s` parses as an unsigned integer no larger than `max`.
pub open spec fn parses_unsigned(s: Seq<char>, max: int) -> bool {
    let d = unsigned_digits(s);
    d.len() > 0 && all_digits(d) && digits_value(d) <= max
}

/// The value that `s` parses to, when `parses_unsigned` holds.
pub open spec fn unsigned_value(s: Seq<char>) -> int {
    digits_value(unsigned_digits(s))
}

/// What `str::to_lowercase` returns for the given characters.
pub uninterp spec fn lower_of(s: Seq<char>) -> Seq<char>;

/// Relies on `str::to_lowercase`: the result depends on the characters
/// alone, and an empty text stays empty.
#[verifier::external_body]
fn to_lower(s: &str) -> (r: String)
    ensures
        r@ == lower_of(s@),
        s@.len() == 0 ==> r@.len() == 0,
{
    s.to_lowercase()
}

/// Relies on `char::to_string`: the text of exactly that character.
#[verifier::external_body]
pub(crate) fn char_text(c: char) -> (r: String)
    ensures
        r@ == seq![c],
{
    c.to_string()
}

pub fn is_white_space_char(c: char) -> (r: bool)
    ensures
        r == is_white_space(c),
{
    let u = c as u32;
    (0x09 <= u && u <= 0x0D) || u == 0x20 || u == 0x85 || u == 0xA0 || u == 0x1680 || (0x2000
        <= u && u <= 0x200A) || u == 0x2028 || u == 0x2029 || u == 0x202F || u == 0x205F || u
        == 0x3000
}

/// The characters of `s`.
pub fn chars_of(s: &str) -> (r: Vec<char>)
    ensures
        r@ == s@,
{
    let n = s.unicode_len();
    let mut r: Vec<char> = Vec::new();
    let mut i: usize = 0;
    while i < n
        invariant
            n == s@.len(),
            i <= n,
            r@ == s@.subrange(0, i as int),
        decreases n - i,
    {
        r.push(s.get_char(i));
        i = i + 1;
        assert(r@ =~= s@.subrange(0, i as int));
    }
    assert(r@ =~= s@);
    r
}

proof fn lemma_trim_front_skip(s: Seq<char>, k: int)
    requires
        0 <= k <= s.len(),
        forall|j: int| 0 <= j < k ==> is_white_space(#[trigger] s[j]),
        k == s.len() || !is_white_space(s[k]),
    ensures
        trim_front(s) == s.subrange(k, s.len() as int),
    decreases k,
{
    if k == 0 {
        assert(s.subrange(0, s.len() as int) =~= s);
    } else {
        let t = s.drop_first();
        assert forall|j: int| 0 <= j < k - 1 implies is_white_space(#[trigger] t[j]) by {
            assert(t[j] == s[j + 1]);
        }
        lemma_trim_front_skip(t, k - 1);
        assert(t.subrange(k - 1, t.len() as int) =~= s.subrange(k, s.len() as int));
    }
}

proof fn lemma_trim_back_skip(s: Seq<char>, e: int)
    requires
        0 <= e <= s.len(),
        forall|j: int| e <= j < s.len() ==> is_white_space(#[trigger] s[j]),
        e == 0 || !is_white_space(s[e - 1]),
    ensures
        trim_back(s) == s.subrange(0, e),
    decreases s.len() - e,
{
    if e == s.len() {
        assert(s.subrange(0, e) =~= s);
    } else {
        let t = s.drop_last();
        lemma_trim_back_skip(t, e);
        assert(t.subrange(0, e) =~= s.subrange(0, e));
    }
}

/// `s` without white space at either end.
pub fn trim(s: &str) -> (r: String)
    ensures
        r@ == trimmed(s@),
{
    let n = s.unicode_len();
    let mut start: usize = 0;
    while start < n && is_white_space_char(s.get_char(start))
        invariant
            n == s@.len(),
            start <= n,
            forall|j: int| 0 <= j < start ==> is_white_space(#[trigger] s@[j]),
        decreases n - start,
    {
        start = start + 1;
    }
    let mut end: usize = n;
    while end > start && is_white_space_char(s.get_char(end - 1))
        invariant
            n == s@.len(),
            start <= end <= n,
            forall|j: int| end <= j < n ==> is_white_space(#[trigger] s@[j]),
        decreases end,
    {
        end = end - 1;
    }
    proof {
        lemma_trim_front_skip(s@, start as int);
        let f = s@.subrange(start as int, n as int);
        assert forall|j: int| end - start <= j < f.len() implies is_white_space(#[trigger] f[j]) by {
            assert(f[j] == s@[start + j]);
        }
        if end > start {
            assert(f[end - start - 1] == s@[end - 1]);
        }
        lemma_trim_back_skip(f, end - start);
        assert(f.subrange(0, end - start) =~= s@.subrange(start as int, end as int));
    }
    let piece = s.substring_char(start, end);
    String::from_str(piece)
}

/// The text is empty or white space only.
pub fn is_blank_text(s: &str) -> (r: bool)
    ensures
        r == is_blank(s@),
{
    let t = trim(s);
    t.as_str().unicode_len() == 0
}

/// Two texts hold the same characters.
pub fn same_text(a: &str, b: &str) -> (r: bool)
    ensures
        r == (a@ == b@),
{
    let x = String::from_str(a);
    let y = String::from_str(b);
    x == y
}

/// `needle` occurs in `hay`.
pub fn contains_text(hay: &str, needle: &str) -> (r: bool)
    ensures
        r == contains_seq(hay@, needle@),
{
    let h = chars_of(hay);
    let nd = chars_of(needle);
    let hl = h.len();
    let nl = nd.len();
    if nl > hl {
        proof {
            assert forall|i: int| 0 <= i <= hay@.len() - needle@.len() implies #[trigger] hay@.subrange(
                i,
                i + needle@.len(),
            ) != needle@ by {}
        }
        return false;
    }
    let mut i: usize = 0;
    while i <= hl - nl
        invariant
            h@ == hay@,
            nd@ == needle@,
            hl == h@.len(),
            nl == nd@.len(),
            nl <= hl,
            i <= hl - nl + 1,
            forall|p: int| 0 <= p < i ==> #[trigger] hay@.subrange(p, p + nl) != needle@,
        decreases hl - nl + 1 - i,
    {
        let mut k: usize = 0;
        let mut same = true;
        while k < nl
            invariant
                h@ == hay@,
                nd@ == needle@,
                hl == h@.len(),
                nl == nd@.len(),
                i + nl <= hl,
                k <= nl,
                same == (forall|j: int| 0 <= j < k ==> h@[i + j] == nd@[j]),
            decreases nl - k,
        {
            if h[i + k] != nd[k] {
                same = false;
            }
            k = k + 1;
        }
        if same {
            assert(hay@.subrange(i as int, i + nl) =~= needle@);
            return true;
        }
        assert(hay@.subrange(i as int, i + nl)[k as int] != needle@[k as int] || exists|j: int|
            0 <= j < nl && h@[i + j] != nd@[j]);
        proof {
            let j = choose|j: int| 0 <= j < nl && h@[i + j] != nd@[j];
            assert(hay@.subrange(i as int, i + nl)[j] != needle@[j]);
        }
        i = i + 1;
    }
    false
}

/// `query` occurs in `name` once both are lower-cased.
pub fn matches_query(name: &str, query: &str) -> (r: bool)
    ensures
        r == contains_seq(lower_of(name@), lower_of(query@)),
{
    let n = to_lower(name);
    let q = to_lower(query);
    contains_text(n.as_str(), q.as_str())
}

proof fn lemma_digits_value_grows(d: Seq<char>, i: int)
    requires
        0 <= i <= d.len(),
        all_digits(d),
    ensures
        digits_value(d.subrange(0, i)) <= digits_value(d),
        digits_value(d.subrange(0, i)) >= 0,
    decreases d.len() - i,
{
    if i == d.len() {
        assert(d.subrange(0, i) =~= d);
        lemma_digits_value_nonneg(d);
    } else {
        let t = d.subrange(0, i + 1);
        lemma_digits_value_grows(d, i + 1);
        assert(t.drop_last() =~= d.subrange(0, i));
        lemma_digits_value_nonneg(d.subrange(0, i));
        assert(is_digit(t.last()));
    }
}

proof fn lemma_digits_value_nonneg(d: Seq<char>)
    requires
        all_digits(d),
    ensures
        digits_value(d) >= 0,
    decreases d.len(),
{
    if d.len() > 0 {
        lemma_digits_value_nonneg(d.drop_last());
        assert(is_digit(d.last()));
    }
}

/// Reads `s` as an unsigned decimal number no larger than `max`: an optional
/// `+` and at least one digit, nothing else.
pub fn parse_unsigned(s: &str, max: u64) -> (r: Option<u64>)
    ensures
        r is Some <==> parses_unsigned(s@, max as int),
        r matches Some(v) ==> v == unsigned_value(s@),
{
    let c = chars_of(s);
    let n = c.len();
    let start: usize = if n > 0 && c[0] == '+' { 1 } else { 0 };
    let ghost d = unsigned_digits(s@);
    assert(d =~= c@.subrange(start as int, n as int));
    if start == n {
        return None;
    }
    let mut acc: u64 = 0;
    let mut i: usize = start;
    while i < n
        invariant
            c@ == s@,
            n == c@.len(),
            start <= i <= n,
            d == c@.subrange(start as int, n as int),
            d == unsigned_digits(s@),
            all_digits(d.subrange(0, i - start)),
            acc as int == digits_value(d.subrange(0, i - start)),
            acc <= max,
        decreases n - i,
    {
        let ch = c[i];
        if !('0' <= ch && ch <= '9') {
            assert(!is_digit(d[i - start]));
            return None;
        }
        let dig = (ch as u32 - '0' as u32) as u64;
        let ghost pre = d.subrange(0, i - start);
        let ghost nxt = d.subrange(0, i - start + 1);
        assert(nxt.drop_last() =~= pre);
        assert(nxt.last() == ch);
        if dig > max || acc > (max - dig) / 10 {
            proof {
                assert(all_digits(nxt));
                assert(digits_value(nxt) == acc * 10 + dig);
                assert(acc * 10 + dig > max) by (nonlinear_arith)
                    requires dig > max || acc > (max - dig) / 10, acc >= 0, dig >= 0;
                if all_digits(d) {
                    lemma_digits_value_grows(d, i - start + 1);
                }
            }
            return None;
        }
        assert(acc * 10 + dig <= max) by (nonlinear_arith)
            requires dig <= max, acc <= (max - dig) / 10;
        acc = acc * 10 + dig;
        i = i + 1;
    }
    assert(d.subrange(0, (n - start) as int) =~= d);
    Some(acc)
}

/// `s` without one leading sign character.
pub open spec fn strip_sign(s: Seq<char>) -> Seq<char> {
    if s.len() > 0 && (s[0] == '+' || s[0] == '-') {
        s.drop_first()
    } else {
        s
    }
}

/// Index of the first `a` or `b` in `s`; the length of `s` when there is none.
pub open spec fn first_of(s: Seq<char>, a: char, b: char) -> int
    decreases s.len(),
{
    if s.len() == 0 {
        0
    } else if s[0] == a || s[0] == b {
        0
    } else {
        1 + first_of(s.drop_first(), a, b)
    }
}

/// `s` spells the lower-case ASCII word `w`, letters in either case.
pub open spec fn spells(s: Seq<char>, w: Seq<char>) -> bool {
    s.len() == w.len() && forall|i: int| 0 <= i < s.len()
        ==> #[trigger] s[i] == w[i] || (s[i] as u32) + 32 == (w[i] as u32)
}

/// Digits with at most one decimal point and at least one digit.
pub open spec fn mantissa_text(m: Seq<char>) -> bool {
    let p = first_of(m, '.', '.');
    if p == m.len() {
        m.len() > 0 && all_digits(m)
    } else {
        all_digits(m.subrange(0, p)) && all_digits(m.subrange(p + 1, m.len() as int)) && m.len()
            > 1
    }
}

/// An exponent after the `e`: optional sign, then digits.
pub open spec fn exponent_text(x: Seq<char>) -> bool {
    strip_sign(x).len() > 0 && all_digits(strip_sign(x))
}

/// A decimal number: mantissa, then optionally `e` or `E` and an exponent.
pub open spec fn number_text(b: Seq<char>) -> bool {
    let e = first_of(b, 'e', 'E');
    mantissa_text(b.subrange(0, e)) && (e == b.len() || exponent_text(
        b.subrange(e + 1, b.len() as int),
    ))
}

/// Text that reads as a floating-point number: an optional sign, then
/// `inf`, `infinity`, `nan` (any case) or a decimal number.
pub open spec fn float_text(s: Seq<char>) -> bool {
    let b = strip_sign(s);
    spells(b, seq!['i', 'n', 'f']) || spells(b, seq!['i', 'n', 'f', 'i', 'n', 'i', 't', 'y'])
        || spells(b, seq!['n', 'a', 'n']) || number_text(b)
}

proof fn lemma_first_of(s: Seq<char>, a: char, b: char, k: int)
    requires
        0 <= k <= s.len(),
        forall|j: int| 0 <= j < k ==> #[trigger] s[j] != a && s[j] != b,
        k == s.len() || s[k] == a || s[k] == b,
    ensures
        first_of(s, a, b) == k,
    decreases k,
{
    if k > 0 {
        let t = s.drop_first();
        assert forall|j: int| 0 <= j < k - 1 implies #[trigger] t[j] != a && t[j] != b by {
            assert(t[j] == s[j + 1]);
        }
        lemma_first_of(t, a, b, k - 1);
    }
}

fn find_first(s: &Vec<char>, from: usize, to: usize, a: char, b: char) -> (r: usize)
    requires
        from <= to <= s@.len(),
    ensures
        from <= r <= to,
        r - from == first_of(s@.subrange(from as int, to as int), a, b),
{
    let mut k: usize = from;
    while k < to && s[k] != a && s[k] != b
        invariant
            from <= k <= to <= s@.len(),
            forall|j: int| from <= j < k ==> #[trigger] s@[j] != a && s@[j] != b,
        decreases to - k,
    {
        k = k + 1;
    }
    proof {
        let t = s@.subrange(from as int, to as int);
        assert forall|j: int| 0 <= j < k - from implies #[trigger] t[j] != a && t[j] != b by {
            assert(t[j] == s@[from + j]);
        }
        lemma_first_of(t, a, b, k - from);
    }
    k
}

fn digits_only(s: &Vec<char>, from: usize, to: usize) -> (r: bool)
    requires
        from <= to <= s@.len(),
    ensures
        r == all_digits(s@.subrange(from as int, to as int)),
{
    let mut k: usize = from;
    while k < to
        invariant
            from <= k <= to <= s@.len(),
            forall|j: int| from <= j < k ==> is_digit(#[trigger] s@[j]),
        decreases to - k,
    {
        if !('0' <= s[k] && s[k] <= '9') {
            assert(s@.subrange(from as int, to as int)[k - from] == s@[k as int]);
            return false;
        }
        k = k + 1;
    }
    assert forall|j: int| 0 <= j < to - from implies is_digit(
        #[trigger] s@.subrange(from as int, to as int)[j],
    ) by {
        assert(s@.subrange(from as int, to as int)[j] == s@[from + j]);
    }
    true
}

fn spells_word(s: &Vec<char>, from: usize, w: &Vec<char>) -> (r: bool)
    requires
        from <= s@.len(),
    ensures
        r == spells(s@.subrange(from as int, s@.len() as int), w@),
{
    let n = s.len();
    if n - from != w.len() {
        return false;
    }
    let ghost t = s@.subrange(from as int, s@.len() as int);
    let mut i: usize = 0;
    while i < w.len()
        invariant
            n == s@.len(),
            from + w@.len() == s@.len(),
            t == s@.subrange(from as int, s@.len() as int),
            i <= w@.len(),
            forall|j: int| 0 <= j < i ==> #[trigger] t[j] == w@[j] || (t[j] as u32) + 32 == (w@[j] as u32),
        decreases w@.len() - i,
    {
        let c = s[from + i];
        assert(t[i as int] == c);
        if !(c == w[i] || ((w[i] as u32) >= 32 && (c as u32) == (w[i] as u32) - 32)) {
            return false;
        }
        i = i + 1;
    }
    true
}

/// The text reads as a floating-point number (see `float_text`).
pub fn is_float_text(s: &str) -> (r: bool)
    ensures
        r == float_text(s@),
{
    let c = chars_of(s);
    let n = c.len();
    let from: usize = if n > 0 && (c[0] == '+' || c[0] == '-') { 1 } else { 0 };
    let ghost b = strip_sign(s@);
    assert(b =~= c@.subrange(from as int, n as int));
    if spells_word(&c, from, &vec!['i', 'n', 'f']) || spells_word(
        &c,
        from,
        &vec!['i', 'n', 'f', 'i', 'n', 'i', 't', 'y'],
    ) || spells_word(&c, from, &vec!['n', 'a', 'n']) {
        return true;
    }
    let e = find_first(&c, from, n, 'e', 'E');
    let p = find_first(&c, from, e, '.', '.');
    proof {
        assert(b.subrange(0, e - from) =~= c@.subrange(from as int, e as int));
        if e < n {
            assert(b.subrange(e - from + 1, b.len() as int) =~= c@.subrange(e + 1, n as int));
        }
        let m = b.subrange(0, e - from);
        assert(m.subrange(0, p - from) =~= c@.subrange(from as int, p as int));
        if p < e {
            assert(m.subrange(p - from + 1, m.len() as int) =~= c@.subrange(p + 1, e as int));
        }
    }
    let mantissa_ok = if p == e {
        e > from && digits_only(&c, from, e)
    } else {
        digits_only(&c, from, p) && digits_only(&c, p + 1, e) && e - from > 1
    };
    if !mantissa_ok {
        return false;
    }
    if e == n {
        return true;
    }
    let x = e + 1;
    let xs: usize = if x < n && (c[x] == '+' || c[x] == '-') { x + 1 } else { x };
    proof {
        let xv = b.subrange(e - from + 1, b.len() as int);
        assert(strip_sign(xv) =~= c@.subrange(xs as int, n as int));
    }
    xs < n && digits_only(&c, xs, n)
}

pub open spec fn digit_char(d: int) -> char {
    seq!['0', '1', '2', '3', '4', '5', '6', '7', '8', '9'][d]
}

/// Decimal digits of `v`, without leading zeros.
pub open spec fn decimal_of(v: nat) -> Seq<char>
    decreases v,
{
    if v < 10 {
        seq![digit_char(v as int)]
    } else {
        decimal_of(v / 10).push(digit_char((v % 10) as int))
    }
}

/// The decimal text of `v`.
pub fn decimal_text(v: u64) -> (r: String)
    ensures
        r@ == decimal_of(v as nat),
    decreases v,
{
    let digits = vec!['0', '1', '2', '3', '4', '5', '6', '7', '8', '9'];
    assert(digits@ =~= seq!['0', '1', '2', '3', '4', '5', '6', '7', '8', '9']);
    if v < 10 {
        char_text(digits[v as usize])
    } else {
        let head = decimal_text(v / 10);
        let last = char_text(digits[(v % 10) as usize]);
        head.concat(last.as_str())
    }
}

/// The texts one after another with `sep` between neighbours.
pub open spec fn joined(parts: Seq<Seq<char>>, sep: Seq<char>) -> Seq<char>
    decreases parts.len(),
{
    if parts.len() == 0 {
        Seq::empty()
    } else if parts.len() == 1 {
        parts[0]
    } else {
        joined(parts.drop_last(), sep) + sep + parts.last()
    }
}

/// The parts joined with `sep` between neighbours.
pub fn join_texts(parts: &Vec<String>, sep: &str) -> (r: String)
    ensures
        r@ == joined(crate::config::texts(parts@), sep@),
{
    let ghost v = crate::config::texts(parts@);
    let mut r = String::new();
    let mut i: usize = 0;
    while i < parts.len()
        invariant
            i <= parts@.len(),
            v == crate::config::texts(parts@),
            r@ == joined(v.subrange(0, i as int), sep@),
        decreases parts@.len() - i,
    {
        let ghost pre = v.subrange(0, i as int);
        let ghost nxt = v.subrange(0, i + 1);
        assert(nxt.drop_last() =~= pre);
        if i > 0 {
            r.append(sep);
        }
        r.append(parts[i].as_str());
        i = i + 1;
    }
    assert(v.subrange(0, parts@.len() as int) =~= v);
    r
}

/// `a`, `b` and `c` one after another.
pub fn concat3(a: &str, b: &str, c: &str) -> (r: String)
    ensures
        r@ == a@ + b@ + c@,
{
    let mut r = String::from_str(a);
    r.append(b);
    r.append(c);
    r
}

} // verus!
