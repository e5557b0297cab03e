use vstd::prelude::*;
use vstd::string::StringExecFns;
use vstd::utf8::encode_utf8;

verus! {

/// Unicode `White_Space`, the set that `char::is_whitespace` and `str::trim` use.
pub open spec fn is_whitespace(c: char) -> bool {
    let u = c as u32;
    ||| 0x09 <= u <= 0x0D
    ||| u == 0x20
    ||| u == 0x85
    ||| u == 0xA0
    ||| u == 0x1680
    ||| 0x2000 <= u <= 0x200A
    ||| u == 0x2028
    ||| u == 0x2029
    ||| u == 0x202F
    ||| u == 0x205F
    ||| u == 0x3000
}

/// `s` without its leading whitespace.
pub open spec fn trim_start(s: Seq<char>) -> Seq<char>
    decreases s.len(),
{
    if s.len() > 0 && is_whitespace(s[0]) {
        trim_start(s.drop_first())
    } else {
        s
    }
}

/// `s` without its trailing whitespace.
pub open spec fn trim_end(s: Seq<char>) -> Seq<char>
    decreases s.len(),
{
    if s.len() > 0 && is_whitespace(s.last()) {
        trim_end(s.drop_last())
    } else {
        s
    }
}

/// `s` without leading and trailing whitespace.
pub open spec fn trim(s: Seq<char>) -> Seq<char> {
    trim_end(trim_start(s))
}

/// `s` without any of its leading `c`.
pub open spec fn trim_start_char(s: Seq<char>, c: char) -> Seq<char>
    decreases s.len(),
{
    if s.len() > 0 && s[0] == c {
        trim_start_char(s.drop_first(), c)
    } else {
        s
    }
}

/// `s` without any of its trailing `c`.
pub open spec fn trim_end_char(s: Seq<char>, c: char) -> Seq<char>
    decreases s.len(),
{
    if s.len() > 0 && s.last() == c {
        trim_end_char(s.drop_last(), c)
    } else {
        s
    }
}

pub open spec fn starts_with(s: Seq<char>, prefix: Seq<char>) -> bool {
    prefix.len() <= s.len() && s.take(prefix.len() as int) == prefix
}

pub open spec fn ends_with(s: Seq<char>, suffix: Seq<char>) -> bool {
    suffix.len() <= s.len() && s.skip(s.len() - suffix.len()) == suffix
}

/// `s` without `prefix`, or `None` where `s` does not start with it.
pub open spec fn strip_prefix(s: Seq<char>, prefix: Seq<char>) -> Option<Seq<char>> {
    if starts_with(s, prefix) {
        Some(s.skip(prefix.len() as int))
    } else {
        None
    }
}

/// Lexicographic order of two strings by their characters' scalar values.
///
/// This is the order of `str`: UTF-8 preserves the order of scalar values, so comparing
/// the bytes and comparing the characters agree.
pub open spec fn str_lt(a: Seq<char>, b: Seq<char>) -> bool
    decreases a.len(),
{
    if a.len() == 0 {
        b.len() > 0
    } else if b.len() == 0 {
        false
    } else if a[0] != b[0] {
        (a[0] as u32) < (b[0] as u32)
    } else {
        str_lt(a.drop_first(), b.drop_first())
    }
}

/// `str_lt` is the lexicographic order of characters by scalar value: after a common prefix,
/// the string with the smaller next character comes first, whatever follows; and a proper
/// prefix comes before the longer string, never after it.
pub proof fn law_str_lt_lexicographic(p: Seq<char>, x: char, y: char, s: Seq<char>, t: Seq<char>)
    ensures
        (x as u32) < (y as u32) ==> str_lt(p + seq![x] + s, p + seq![y] + t),
        (x as u32) < (y as u32) ==> !str_lt(p + seq![y] + t, p + seq![x] + s),
        t.len() > 0 ==> str_lt(p, p + t),
        t.len() > 0 ==> !str_lt(p + t, p),
    decreases p.len(),
{
    if p.len() == 0 {
        assert(p + seq![x] + s =~= seq![x] + s);
        assert(p + seq![y] + t =~= seq![y] + t);
        assert(p + t =~= t);
        assert((seq![x] + s)[0] == x);
        assert((seq![y] + t)[0] == y);
    } else {
        law_str_lt_lexicographic(p.drop_first(), x, y, s, t);
        assert((p + seq![x] + s).drop_first() =~= p.drop_first() + seq![x] + s);
        assert((p + seq![y] + t).drop_first() =~= p.drop_first() + seq![y] + t);
        assert((p + t).drop_first() =~= p.drop_first() + t);
        assert((p + seq![x] + s)[0] == p[0]);
        assert((p + seq![y] + t)[0] == p[0]);
        assert((p + t)[0] == p[0]);
    }
}

/// Appends `c` to `s` (`String::push`).
#[verifier::external_body]
pub(crate) fn push_char(s: &mut String, c: char)
    ensures
        final(s)@ == old(s)@.push(c),
{
    s.push(c);
}

/// The characters of `s`, in order.
pub fn chars_of(s: &str) -> (r: Vec<char>)
    ensures
        r@ == s@,
{
    let mut out: Vec<char> = Vec::new();
    for c in it: s.chars()
        invariant
            out@ == it.seq().take(it.index() as int),
    {
        out.push(c);
    }
    out
}

/// The characters `chars[lo..hi]` as a string.
pub fn string_of(chars: &Vec<char>, lo: usize, hi: usize) -> (r: String)
    requires
        lo <= hi <= chars.len(),
    ensures
        r@ == chars@.subrange(lo as int, hi as int),
{
    let mut out = String::new();
    let mut i = lo;
    while i < hi
        invariant
            lo <= i <= hi <= chars.len(),
            out@ == chars@.subrange(lo as int, i as int),
        decreases hi - i,
    {
        push_char(&mut out, chars[i]);
        assert(chars@.subrange(lo as int, i + 1) =~= chars@.subrange(lo as int, i as int).push(
            chars@[i as int],
        ));
        i = i + 1;
    }
    out
}

/// `char::is_whitespace`.
pub fn char_is_whitespace(c: char) -> (r: bool)
    ensures
        r == is_whitespace(c),
{
    let u = c as u32;
    (0x09 <= u && u <= 0x0D) || u == 0x20 || u == 0x85 || u == 0xA0 || u == 0x1680 || (0x2000 <= u
        && u <= 0x200A) || u == 0x2028 || u == 0x2029 || u == 0x202F || u == 0x205F || u == 0x3000
}

proof fn lemma_trim_start_skip(s: Seq<char>, k: int)
    requires
        0 <= k <= s.len(),
        forall|j: int| 0 <= j < k ==> is_whitespace(#[trigger] s[j]),
    ensures
        trim_start(s) == trim_start(s.skip(k)),
    decreases k,
{
    if k > 0 {
        assert(s.skip(1) =~= s.drop_first());
        lemma_trim_start_skip(s.drop_first(), k - 1);
        assert(s.drop_first().skip(k - 1) =~= s.skip(k));
    } else {
        assert(s.skip(0) =~= s);
    }
}

proof fn lemma_trim_end_take(s: Seq<char>, k: int)
    requires
        0 <= k <= s.len(),
        forall|j: int| k <= j < s.len() ==> is_whitespace(#[trigger] s[j]),
    ensures
        trim_end(s) == trim_end(s.take(k)),
    decreases s.len() - k,
{
    if k < s.len() {
        assert(s.take(s.len() - 1) =~= s.drop_last());
        lemma_trim_end_take(s.drop_last(), k);
        assert(s.drop_last().take(k) =~= s.take(k));
    } else {
        assert(s.take(k) =~= s);
    }
}

proof fn lemma_trim_start_char_skip(s: Seq<char>, c: char, k: int)
    requires
        0 <= k <= s.len(),
        forall|j: int| 0 <= j < k ==> #[trigger] s[j] == c,
    ensures
        trim_start_char(s, c) == trim_start_char(s.skip(k), c),
    decreases k,
{
    if k > 0 {
        lemma_trim_start_char_skip(s.drop_first(), c, k - 1);
        assert(s.drop_first().skip(k - 1) =~= s.skip(k));
    } else {
        assert(s.skip(0) =~= s);
    }
}

proof fn lemma_trim_end_char_take(s: Seq<char>, c: char, k: int)
    requires
        0 <= k <= s.len(),
        forall|j: int| k <= j < s.len() ==> #[trigger] s[j] == c,
    ensures
        trim_end_char(s, c) == trim_end_char(s.take(k), c),
    decreases s.len() - k,
{
    if k < s.len() {
        lemma_trim_end_char_take(s.drop_last(), c, k);
        assert(s.drop_last().take(k) =~= s.take(k));
    } else {
        assert(s.take(k) =~= s);
    }
}

/// `str::trim`: `s` without leading and trailing whitespace.
pub fn trim_str(s: &str) -> (r: String)
    ensures
        r@ == trim(s@),
{
    let cs = chars_of(s);
    let n = cs.len();
    let mut lo: usize = 0;
    while lo < n && char_is_whitespace(cs[lo])
        invariant
            lo <= n == cs@.len(),
            forall|j: int| 0 <= j < lo ==> is_whitespace(#[trigger] cs@[j]),
        decreases n - lo,
    {
        lo = lo + 1;
    }
    proof {
        lemma_trim_start_skip(cs@, lo as int);
    }
    let mut hi: usize = n;
    while hi > lo && char_is_whitespace(cs[hi - 1])
        invariant
            lo <= hi <= n == cs@.len(),
            forall|j: int| hi <= j < n ==> is_whitespace(#[trigger] cs@[j]),
        decreases hi,
    {
        hi = hi - 1;
    }
    let ghost t = cs@.skip(lo as int);
    proof {
        assert(trim_start(t) == t);
        assert forall|j: int| hi - lo <= j < t.len() implies is_whitespace(#[trigger] t[j]) by {
            assert(t[j] == cs@[lo + j]);
        }
        lemma_trim_end_take(t, hi - lo);
        assert(t.take(hi - lo) =~= cs@.subrange(lo as int, hi as int));
        let u = t.take(hi - lo);
        if u.len() > 0 {
            assert(u.last() == cs@[hi - 1]);
        }
        assert(trim_end(u) == u);
    }
    string_of(&cs, lo, hi)
}

/// `str::trim_start_matches(c)`: `s` without any of its leading `c`.
pub fn trim_start_matches(s: &str, c: char) -> (r: String)
    ensures
        r@ == trim_start_char(s@, c),
{
    let cs = chars_of(s);
    let n = cs.len();
    let mut lo: usize = 0;
    while lo < n && cs[lo] == c
        invariant
            lo <= n == cs@.len(),
            forall|j: int| 0 <= j < lo ==> #[trigger] cs@[j] == c,
        decreases n - lo,
    {
        lo = lo + 1;
    }
    proof {
        lemma_trim_start_char_skip(cs@, c, lo as int);
        assert(cs@.skip(lo as int) =~= cs@.subrange(lo as int, n as int));
    }
    string_of(&cs, lo, n)
}

/// `str::trim_end_matches(c)`: `s` without any of its trailing `c`.
pub fn trim_end_matches(s: &str, c: char) -> (r: String)
    ensures
        r@ == trim_end_char(s@, c),
{
    let cs = chars_of(s);
    let n = cs.len();
    let mut hi: usize = n;
    while hi > 0 && cs[hi - 1] == c
        invariant
            hi <= n == cs@.len(),
            forall|j: int| hi <= j < n ==> #[trigger] cs@[j] == c,
        decreases hi,
    {
        hi = hi - 1;
    }
    proof {
        lemma_trim_end_char_take(cs@, c, hi as int);
        assert(cs@.take(hi as int) =~= cs@.subrange(0, hi as int));
    }
    string_of(&cs, 0, hi)
}

/// Whether two strings hold the same characters.
pub fn str_eq(a: &str, b: &str) -> (r: bool)
    ensures
        r == (a@ == b@),
{
    let xs = chars_of(a);
    let ys = chars_of(b);
    if xs.len() != ys.len() {
        return false;
    }
    let mut i: usize = 0;
    while i < xs.len()
        invariant
            i <= xs.len() == ys.len(),
            xs@ == a@,
            ys@ == b@,
            forall|j: int| 0 <= j < i ==> xs@[j] == ys@[j],
        decreases xs.len() - i,
    {
        if xs[i] != ys[i] {
            return false;
        }
        i = i + 1;
    }
    assert(xs@ =~= ys@);
    true
}

/// `str::starts_with` for a string prefix.
pub fn has_prefix(s: &str, prefix: &str) -> (r: bool)
    ensures
        r == starts_with(s@, prefix@),
{
    let cs = chars_of(s);
    let ps = chars_of(prefix);
    if ps.len() > cs.len() {
        return false;
    }
    let mut i: usize = 0;
    while i < ps.len()
        invariant
            i <= ps.len() <= cs.len(),
            cs@ == s@,
            ps@ == prefix@,
            forall|j: int| 0 <= j < i ==> cs@[j] == ps@[j],
        decreases ps.len() - i,
    {
        if cs[i] != ps[i] {
            assert(cs@.take(ps.len() as int)[i as int] != ps@[i as int]);
            return false;
        }
        i = i + 1;
    }
    assert(cs@.take(ps.len() as int) =~= ps@);
    true
}

/// `str::ends_with` for a string suffix.
pub fn has_suffix(s: &str, suffix: &str) -> (r: bool)
    ensures
        r == ends_with(s@, suffix@),
{
    let cs = chars_of(s);
    let ps = chars_of(suffix);
    if ps.len() > cs.len() {
        return false;
    }
    let off = cs.len() - ps.len();
    let mut i: usize = 0;
    while i < ps.len()
        invariant
            i <= ps.len() <= cs.len(),
            off == cs.len() - ps.len(),
            cs@ == s@,
            ps@ == suffix@,
            forall|j: int| 0 <= j < i ==> cs@[off + j] == ps@[j],
        decreases ps.len() - i,
    {
        if cs[off + i] != ps[i] {
            assert(cs@.skip(off as int)[i as int] != ps@[i as int]);
            return false;
        }
        i = i + 1;
    }
    assert(cs@.skip(off as int) =~= ps@);
    true
}

/// `str::strip_prefix`: `s` without `prefix`, or `None` where `s` does not start with it.
pub fn remove_prefix(s: &str, prefix: &str) -> (r: Option<String>)
    ensures
        match r {
            Some(t) => strip_prefix(s@, prefix@) == Some(t@),
            None => strip_prefix(s@, prefix@) is None,
        },
{
    if has_prefix(s, prefix) {
        let cs = chars_of(s);
        let ps = chars_of(prefix);
        let t = string_of(&cs, ps.len(), cs.len());
        assert(t@ =~= s@.skip(prefix@.len() as int));
        Some(t)
    } else {
        None
    }
}

/// Whether `a` comes before `b` in the order of `str`.
pub fn str_less(a: &str, b: &str) -> (r: bool)
    ensures
        r == str_lt(a@, b@),
{
    let xs = chars_of(a);
    let ys = chars_of(b);
    let mut i: usize = 0;
    proof {
        assert(xs@.skip(0) =~= xs@);
        assert(ys@.skip(0) =~= ys@);
    }
    while i < xs.len() && i < ys.len() && xs[i] == ys[i]
        invariant
            i <= xs.len(),
            i <= ys.len(),
            str_lt(a@, b@) == str_lt(xs@.skip(i as int), ys@.skip(i as int)),
            xs@ == a@,
            ys@ == b@,
        decreases xs.len() - i,
    {
        assert(xs@.skip(i as int).drop_first() =~= xs@.skip(i + 1));
        assert(ys@.skip(i as int).drop_first() =~= ys@.skip(i + 1));
        i = i + 1;
    }
    if i == xs.len() {
        i < ys.len()
    } else if i == ys.len() {
        false
    } else {
        assert(xs@.skip(i as int)[0] == xs@[i as int]);
        assert(ys@.skip(i as int)[0] == ys@[i as int]);
        (xs[i] as u32) < (ys[i] as u32)
    }
}

/// The character of a digit below ten.
pub open spec fn digit_char(d: nat) -> char {
    ((48 + d) as u8) as char
}

/// The decimal notation of `n`, without leading zeros.
pub open spec fn decimal(n: nat) -> Seq<char>
    decreases n,
{
    if n < 10 {
        seq![digit_char(n)]
    } else {
        decimal(n / 10) + seq![digit_char(n % 10)]
    }
}

/// `n` in decimal notation, as `format!("{}", n)` writes it.
pub fn to_decimal(n: u64) -> (r: String)
    ensures
        r@ == decimal(n as nat),
    decreases n,
{
    let d = (n % 10) as u8;
    let c = (48u8 + d) as char;
    if n < 10 {
        let mut s = String::new();
        push_char(&mut s, c);
        assert(s@ =~= seq![digit_char(n as nat)]);
        s
    } else {
        let mut s = to_decimal(n / 10);
        push_char(&mut s, c);
        s
    }
}

/// Bytes that percent-encoding keeps as they are: ASCII letters, digits, `-`, `_`, `.`, `~`.
pub open spec fn is_unreserved(b: u8) -> bool {
    ||| 0x41 <= b <= 0x5A
    ||| 0x61 <= b <= 0x7A
    ||| 0x30 <= b <= 0x39
    ||| b == 0x2D
    ||| b == 0x5F
    ||| b == 0x2E
    ||| b == 0x7E
}

/// The upper-case hexadecimal digit of a value below sixteen.
pub open spec fn hex_digit(d: u8) -> char {
    if d < 10 {
        ((48 + d) as u8) as char
    } else {
        ((55 + d) as u8) as char
    }
}

/// One byte percent-encoded: itself if unreserved, else `%` and two upper-case hex digits.
pub open spec fn encode_byte(b: u8) -> Seq<char> {
    if is_unreserved(b) {
        seq![b as char]
    } else {
        seq!['%', hex_digit(b / 16), hex_digit(b % 16)]
    }
}

/// A byte string percent-encoded byte by byte.
pub open spec fn percent_encode(bytes: Seq<u8>) -> Seq<char>
    decreases bytes.len(),
{
    if bytes.len() == 0 {
        Seq::empty()
    } else {
        percent_encode(bytes.drop_last()) + encode_byte(bytes.last())
    }
}

fn hex_char(d: u8) -> (r: char)
    requires
        d < 16,
    ensures
        r == hex_digit(d),
{
    if d < 10 {
        (48u8 + d) as char
    } else {
        (55u8 + d) as char
    }
}

/// Percent-encodes the UTF-8 bytes of `value`.
pub fn percent_encode_str(value: &str) -> (r: String)
    ensures
        r@ == percent_encode(encode_utf8(value@)),
{
    let bytes = value.as_bytes();
    let mut out = String::new();
    let mut i: usize = 0;
    assert(bytes@.take(0) =~= Seq::<u8>::empty());
    while i < bytes.len()
        invariant
            i <= bytes@.len(),
            bytes@ == encode_utf8(value@),
            out@ == percent_encode(bytes@.take(i as int)),
        decreases bytes.len() - i,
    {
        let b = bytes[i];
        if (0x41 <= b && b <= 0x5A) || (0x61 <= b && b <= 0x7A) || (0x30 <= b && b <= 0x39) || b
            == 0x2D || b == 0x5F || b == 0x2E || b == 0x7E {
            push_char(&mut out, b as char);
        } else {
            push_char(&mut out, '%');
            push_char(&mut out, hex_char(b / 16));
            push_char(&mut out, hex_char(b % 16));
        }
        assert(bytes@.take(i + 1).drop_last() =~= bytes@.take(i as int));
        i = i + 1;
    }
    assert(bytes@.take(bytes@.len() as int) =~= bytes@);
    out
}

/// `s` with surrounding whitespace removed, or `default` where nothing else is left.
pub open spec fn or_default(s: Seq<char>, default: Seq<char>) -> Seq<char> {
    if trim(s).len() == 0 {
        default
    } else {
        trim(s)
    }
}

/// `base` and `path` (each trimmed, or its default where blank) joined by exactly one `/`.
pub open spec fn join_path(
    base: Seq<char>,
    path: Seq<char>,
    default_base: Seq<char>,
    default_path: Seq<char>,
) -> Seq<char> {
    trim_end_char(or_default(base, default_base), '/') + seq!['/'] + trim_start_char(
        or_default(path, default_path),
        '/',
    )
}

proof fn lemma_trim_end_char_last(s: Seq<char>, c: char)
    ensures
        trim_end_char(s, c).len() > 0 ==> trim_end_char(s, c).last() != c,
    decreases s.len(),
{
    if s.len() > 0 && s.last() == c {
        lemma_trim_end_char_last(s.drop_last(), c);
    }
}

proof fn lemma_trim_start_char_first(s: Seq<char>, c: char)
    ensures
        trim_start_char(s, c).len() > 0 ==> trim_start_char(s, c)[0] != c,
    decreases s.len(),
{
    if s.len() > 0 && s[0] == c {
        lemma_trim_start_char_first(s.drop_first(), c);
    }
}

/// A joined URL has exactly one `/` between base and path: the base part does not end in
/// `/`, the path part does not start with one.
pub proof fn law_join_path_single_slash(
    base: Seq<char>,
    path: Seq<char>,
    default_base: Seq<char>,
    default_path: Seq<char>,
)
    ensures
        ({
            let b = trim_end_char(or_default(base, default_base), '/');
            let r = join_path(base, path, default_base, default_path);
            &&& r[b.len() as int] == '/'
            &&& b.len() > 0 ==> r[b.len() - 1] != '/'
            &&& r.len() > b.len() + 1 ==> r[b.len() + 1int] != '/'
        }),
{
    let b = trim_end_char(or_default(base, default_base), '/');
    let p = trim_start_char(or_default(path, default_path), '/');
    lemma_trim_end_char_last(or_default(base, default_base), '/');
    lemma_trim_start_char_first(or_default(path, default_path), '/');
    let r = join_path(base, path, default_base, default_path);
    assert(r == b + seq!['/'] + p);
    assert(r[b.len() as int] == '/');
    if b.len() > 0 {
        assert(r[b.len() - 1] == b.last());
    }
    if r.len() > b.len() + 1 {
        assert(r[b.len() + 1int] == p[0]);
    }
}

/// The characters that percent-encoding writes: unreserved ASCII and `%`.
pub open spec fn is_url_char(c: char) -> bool {
    let u = c as u32;
    ||| 0x41 <= u <= 0x5A
    ||| 0x61 <= u <= 0x7A
    ||| 0x30 <= u <= 0x39
    ||| u == 0x2D
    ||| u == 0x5F
    ||| u == 0x2E
    ||| u == 0x7E
    ||| u == 0x25
}

/// Percent-encoding writes nothing but unreserved ASCII and `%`, and keeps an unreserved
/// byte as it is.
pub proof fn law_percent_encode_charset(bytes: Seq<u8>)
    ensures
        forall|i: int| 0 <= i < percent_encode(bytes).len() ==> is_url_char(#[trigger] percent_encode(bytes)[i]),
        (forall|i: int| 0 <= i < bytes.len() ==> is_unreserved(#[trigger] bytes[i])) ==> percent_encode(bytes).len() == bytes.len(),
    decreases bytes.len(),
{
    if bytes.len() > 0 {
        law_percent_encode_charset(bytes.drop_last());
        let b = bytes.last();
        let e = encode_byte(b);
        assert forall|j: int| 0 <= j < e.len() implies is_url_char(#[trigger] e[j]) by {
            if is_unreserved(b) {
                assert(e[j] == b as char);
                assert((b as char) as u32 == b as u32);
            } else {
                let hi = b / 16;
                let lo = b % 16;
                assert(hi < 16 && lo < 16);
                if j == 1 {
                    assert(e[j] == hex_digit(hi));
                    assert(hex_digit(hi) as u32 == if hi < 10 { 48 + hi } else { 55 + hi });
                } else if j == 2 {
                    assert(e[j] == hex_digit(lo));
                    assert(hex_digit(lo) as u32 == if lo < 10 { 48 + lo } else { 55 + lo });
                }
            }
        }
        let r = percent_encode(bytes.drop_last());
        assert forall|i: int| 0 <= i < percent_encode(bytes).len() implies is_url_char(
            #[trigger] percent_encode(bytes)[i],
        ) by {
            if i < r.len() {
                assert(percent_encode(bytes)[i] == r[i]);
            } else {
                assert(percent_encode(bytes)[i] == e[i - r.len()]);
            }
        }
        if forall|i: int| 0 <= i < bytes.len() ==> is_unreserved(#[trigger] bytes[i]) {
            assert(is_unreserved(bytes[bytes.len() - 1]));
            assert forall|i: int| 0 <= i < bytes.drop_last().len() implies is_unreserved(
                #[trigger] bytes.drop_last()[i],
            ) by {
                assert(bytes.drop_last()[i] == bytes[i]);
            }
        }
    }
}

/// The value of an upper-case hexadecimal digit; other characters count as zero.
pub open spec fn hex_value(c: char) -> int {
    let u = c as u32;
    if 48 <= u <= 57 {
        u - 48
    } else if 65 <= u <= 70 {
        u - 55
    } else {
        0
    }
}

/// Percent-decoding: `%` and the two hex digits after it stand for one byte, any other
/// character for the byte of its code.
pub open spec fn percent_decode(cs: Seq<char>) -> Seq<u8>
    decreases cs.len(),
{
    if cs.len() == 0 {
        Seq::empty()
    } else if cs[0] == '%' && cs.len() >= 3 {
        seq![(hex_value(cs[1]) * 16 + hex_value(cs[2])) as u8] + percent_decode(cs.skip(3))
    } else {
        seq![cs[0] as u8] + percent_decode(cs.drop_first())
    }
}

proof fn lemma_percent_encode_add(a: Seq<u8>, b: Seq<u8>)
    ensures
        percent_encode(a + b) == percent_encode(a) + percent_encode(b),
    decreases b.len(),
{
    if b.len() == 0 {
        assert(a + b =~= a);
        assert(percent_encode(a) + percent_encode(b) =~= percent_encode(a));
    } else {
        lemma_percent_encode_add(a, b.drop_last());
        assert((a + b).drop_last() =~= a + b.drop_last());
        assert((a + b).last() == b.last());
        assert(percent_encode(a) + (percent_encode(b.drop_last()) + encode_byte(b.last())) =~= (
        percent_encode(a) + percent_encode(b.drop_last())) + encode_byte(b.last()));
    }
}

proof fn lemma_hex_value_digit(d: u8)
    requires
        d < 16,
    ensures
        hex_value(hex_digit(d)) == d,
{
    if d < 10 {
        assert(((48 + d) as u8) as char as u32 == 48 + d);
    } else {
        assert(((55 + d) as u8) as char as u32 == 55 + d);
    }
}

proof fn lemma_decode_encode_byte(x: u8, rest: Seq<char>)
    ensures
        percent_decode(encode_byte(x) + rest) == seq![x] + percent_decode(rest),
{
    let cs = encode_byte(x) + rest;
    if is_unreserved(x) {
        assert((x as char) as u32 == x as u32);
        assert(cs[0] == x as char);
        assert(cs[0] != '%');
        assert((x as char) as u8 == x);
        assert(cs.drop_first() =~= rest);
    } else {
        let hi = x / 16;
        let lo = x % 16;
        lemma_hex_value_digit(hi);
        lemma_hex_value_digit(lo);
        assert(cs[0] == '%' && cs[1] == hex_digit(hi) && cs[2] == hex_digit(lo));
        assert(cs.skip(3) =~= rest);
        assert((hi * 16 + lo) as u8 == x);
    }
}

/// Percent-decoding gives back the bytes that were encoded: no two byte strings have the
/// same encoding.
pub proof fn law_percent_decode_encode(bytes: Seq<u8>)
    ensures
        percent_decode(percent_encode(bytes)) == bytes,
    decreases bytes.len(),
{
    if bytes.len() > 0 {
        let first = seq![bytes[0]];
        let rest = bytes.drop_first();
        assert(bytes =~= first + rest);
        lemma_percent_encode_add(first, rest);
        assert(first.drop_last() =~= Seq::<u8>::empty());
        assert(first.last() == bytes[0]);
        assert(percent_encode(first.drop_last()) =~= Seq::<char>::empty());
        assert(percent_encode(first) =~= encode_byte(bytes[0]));
        lemma_decode_encode_byte(bytes[0], percent_encode(rest));
        law_percent_decode_encode(rest);
        assert(seq![bytes[0]] + rest =~= bytes);
    } else {
        assert(percent_encode(bytes) =~= Seq::<char>::empty());
    }
}

/// Distinct strings have distinct percent-encodings of their UTF-8 bytes.
pub proof fn law_percent_encode_utf8_injective(a: Seq<char>, b: Seq<char>)
    ensures
        percent_encode(encode_utf8(a)) == percent_encode(encode_utf8(b)) ==> a == b,
{
    law_percent_decode_encode(encode_utf8(a));
    law_percent_decode_encode(encode_utf8(b));
    vstd::utf8::encode_utf8_decode_utf8(a);
    vstd::utf8::encode_utf8_decode_utf8(b);
}

/// Joins a base URL and a path, each trimmed and replaced by its default where blank, with
/// exactly one `/` between them.
pub fn join_with_defaults(base: &str, path: &str, default_base: &str, default_path: &str) -> (r:
    String)
    ensures
        r@ == join_path(base@, path@, default_base@, default_path@),
{
    let b = trim_str(base);
    let b = if b.as_str().is_empty() {
        trim_end_matches(default_base, '/')
    } else {
        trim_end_matches(b.as_str(), '/')
    };
    let p = trim_str(path);
    let p = if p.as_str().is_empty() {
        trim_start_matches(default_path, '/')
    } else {
        trim_start_matches(p.as_str(), '/')
    };
    let mut url = b;
    url.append("/");
    url.append(p.as_str());
    proof {
        reveal_strlit("/");
    }
    url
}

} // verus!
