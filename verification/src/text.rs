//! Character-level text operations on which the event parser and the
//! command builders rest: white space, trimming, searching and line
//! splitting, each stated over the `Seq<char>` view of a string.
use vstd::prelude::*;

verus! {

/// The Unicode `White_Space` property (the set that `char::is_whitespace`
/// and `str::trim` use).
pub open spec fn is_white_space(c: char) -> bool {
    let u = c as u32;
    ||| 0x9 <= u <= 0xd
    ||| u == 0x20
    ||| u == 0x85
    ||| u == 0xa0
    ||| u == 0x1680
    ||| 0x2000 <= u <= 0x200a
    ||| u == 0x2028
    ||| u == 0x2029
    ||| u == 0x202f
    ||| u == 0x205f
    ||| u == 0x3000
}

/// `s` without its leading white space.
pub open spec fn trim_start_spec(s: Seq<char>) -> Seq<char>
    decreases s.len(),
{
    if s.len() > 0 && is_white_space(s[0]) {
        trim_start_spec(s.drop_first())
    } else {
        s
    }
}

/// `s` without its trailing white space.
pub open spec fn trim_end_spec(s: Seq<char>) -> Seq<char>
    decreases s.len(),
{
    if s.len() > 0 && is_white_space(s.last()) {
        trim_end_spec(s.drop_last())
    } else {
        s
    }
}

/// `s` without leading and trailing white space, as `str::trim` gives it.
pub open spec fn trim_spec(s: Seq<char>) -> Seq<char> {
    trim_end_spec(trim_start_spec(s))
}

/// `s` without every leading occurrence of `c` (`str::trim_start_matches`).
pub open spec fn strip_leading(s: Seq<char>, c: char) -> Seq<char>
    decreases s.len(),
{
    if s.len() > 0 && s[0] == c {
        strip_leading(s.drop_first(), c)
    } else {
        s
    }
}

/// `s` without every trailing occurrence of `c` (`str::trim_end_matches`).
pub open spec fn strip_trailing(s: Seq<char>, c: char) -> Seq<char>
    decreases s.len(),
{
    if s.len() > 0 && s.last() == c {
        strip_trailing(s.drop_last(), c)
    } else {
        s
    }
}

/// Whether `c` has the Unicode `White_Space` property.
pub fn is_white_space_char(c: char) -> (r: bool)
    ensures
        r == is_white_space(c),
{
    let u = c as u32;
    (0x9 <= u && u <= 0xd) || u == 0x20 || u == 0x85 || u == 0xa0 || u == 0x1680 || (0x2000 <= u
        && u <= 0x200a) || u == 0x2028 || u == 0x2029 || u == 0x202f || u == 0x205f || u == 0x3000
}

/// The characters of `s`, in order.
pub fn chars_of(s: &str) -> (v: Vec<char>)
    ensures
        v@ == s@,
{
    let mut v: Vec<char> = Vec::new();
    for c in it: s.chars()
        invariant
            v@ == it.seq().take(it.index() as int),
            it.seq() == s@,
    {
        v.push(c);
    }
    v
}

/// The bounds `(a, b)` such that `v[a..b]` is `v` trimmed of white space.
pub fn trim_bounds(v: &Vec<char>) -> (r: (usize, usize))
    ensures
        r.0 <= r.1 <= v@.len(),
        v@.subrange(r.0 as int, r.1 as int) == trim_spec(v@),
{
    let n = v.len();
    let mut a: usize = 0;
    assert(v@.subrange(0, n as int) == v@);
    while a < n && is_white_space_char(v[a])
        invariant
            a <= n == v@.len(),
            trim_start_spec(v@) == trim_start_spec(v@.subrange(a as int, n as int)),
        decreases n - a,
    {
        assert(v@.subrange(a as int, n as int).drop_first() == v@.subrange(a + 1, n as int));
        a = a + 1;
    }
    assert(trim_start_spec(v@) == v@.subrange(a as int, n as int));
    let mut b: usize = n;
    while b > a && is_white_space_char(v[b - 1])
        invariant
            a <= b <= n == v@.len(),
            trim_start_spec(v@) == v@.subrange(a as int, n as int),
            trim_spec(v@) == trim_end_spec(v@.subrange(a as int, b as int)),
        decreases b - a,
    {
        assert(v@.subrange(a as int, b as int).drop_last() == v@.subrange(a as int, b - 1));
        b = b - 1;
    }
    (a, b)
}

/// `s` without leading and trailing white space (`str::trim`).
pub fn trim(s: &str) -> (r: &str)
    ensures
        r@ == trim_spec(s@),
{
    let v = chars_of(s);
    let (a, b) = trim_bounds(&v);
    s.substring_char(a, b)
}


/// Whether `pat` occurs in `s` at index `i`.
pub open spec fn occurs_at(s: Seq<char>, pat: Seq<char>, i: int) -> bool {
    0 <= i && i + pat.len() <= s.len() && s.subrange(i, i + pat.len()) == pat
}

/// The first index at or after `from` at which `pat` occurs in `s`.
pub open spec fn find_from(s: Seq<char>, pat: Seq<char>, from: nat) -> Option<nat>
    decreases s.len() + 1 - from,
{
    if from + pat.len() > s.len() {
        None
    } else if s.subrange(from as int, (from + pat.len()) as int) == pat {
        Some(from)
    } else {
        find_from(s, pat, from + 1)
    }
}

/// `s` split around the first occurrence of `pat` (`str::split_once`).
pub open spec fn split_once_spec(s: Seq<char>, pat: Seq<char>) -> Option<(Seq<char>, Seq<char>)> {
    match find_from(s, pat, 0) {
        Some(i) => Some((s.take(i as int), s.skip((i + pat.len()) as int))),
        None => None,
    }
}

/// Whether `s` begins with `p` (`str::starts_with`).
pub open spec fn starts_with_spec(s: Seq<char>, p: Seq<char>) -> bool {
    p.len() <= s.len() && s.take(p.len() as int) == p
}

/// `t` without one trailing carriage return.
pub open spec fn strip_cr(t: Seq<char>) -> Seq<char> {
    if t.len() > 0 && t.last() == '\r' {
        t.drop_last()
    } else {
        t
    }
}

/// The lines of `s` as `str::lines` yields them: pieces ended by `'\n'`,
/// each without its `'\n'` and without a `'\r'` just before it; a last
/// piece without `'\n'` is kept as it stands, and none follows a final
/// `'\n'`.
pub open spec fn lines_spec(s: Seq<char>) -> Seq<Seq<char>>
    decreases s.len(),
{
    if s.len() == 0 {
        Seq::empty()
    } else {
        match find_from(s, seq!['\n'], 0) {
            Some(i) => {
                proof {
                    lemma_find_from(s, seq!['\n'], 0);
                }
                seq![strip_cr(s.take(i as int))] + lines_spec(s.skip((i + 1) as int))
            },
            None => seq![s],
        }
    }
}

/// What `find_from` returns: the least index at or after `from` where
/// `pat` occurs, or `None` when there is none.
pub proof fn lemma_find_from(s: Seq<char>, pat: Seq<char>, from: nat)
    ensures
        match find_from(s, pat, from) {
            Some(i) => from <= i && occurs_at(s, pat, i as int) && forall|j: int|
                from <= j < i ==> !#[trigger] occurs_at(s, pat, j),
            None => forall|j: int| from <= j ==> !#[trigger] occurs_at(s, pat, j),
        },
    decreases s.len() + 1 - from,
{
    if from + pat.len() > s.len() {
    } else if s.subrange(from as int, (from + pat.len()) as int) == pat {
    } else {
        lemma_find_from(s, pat, from + 1);
    }
}

/// Searching a suffix of `s` is searching `s` from further on.
pub proof fn lemma_find_from_skip(s: Seq<char>, pat: Seq<char>, p: nat, k: nat)
    requires
        p <= s.len(),
    ensures
        find_from(s.skip(p as int), pat, k) == match find_from(s, pat, p + k) {
            Some(i) => Some((i - p) as nat),
            None => None::<nat>,
        },
    decreases s.len() + 1 - (p + k),
{
    let t = s.skip(p as int);
    if k + pat.len() > t.len() {
    } else {
        assert(t.subrange(k as int, (k + pat.len()) as int) == s.subrange((p + k) as int, (p + k + pat.len()) as int));
        if s.subrange((p + k) as int, (p + k + pat.len()) as int) == pat {
        } else {
            lemma_find_from_skip(s, pat, p, k + 1);
        }
    }
}

/// Whether `pat` occurs in `v` at index `i`.
fn occurs_at_exec(v: &Vec<char>, pat: &Vec<char>, i: usize) -> (r: bool)
    ensures
        r == occurs_at(v@, pat@, i as int),
{
    if pat.len() > v.len() || i > v.len() - pat.len() {
        return false;
    }
    let n = pat.len();
    let mut k: usize = 0;
    while k < n
        invariant
            k <= n == pat@.len(),
            i + n <= v.len(),
            forall|m: int| 0 <= m < k ==> v@[i + m] == pat@[m],
        decreases n - k,
    {
        if v[i + k] != pat[k] {
            assert(v@.subrange(i as int, i + n)[k as int] != pat@[k as int]);
            return false;
        }
        k = k + 1;
    }
    assert(v@.subrange(i as int, i + n) =~= pat@);
    true
}

/// The first index at or after `from` at which `pat` occurs in `v`.
pub fn find_in(v: &Vec<char>, pat: &Vec<char>, from: usize) -> (r: Option<usize>)
    ensures
        match r {
            Some(i) => find_from(v@, pat@, from as nat) == Some(i as nat),
            None => find_from(v@, pat@, from as nat) is None,
        },
{
    if from > v.len() {
        return None;
    }
    let mut i = from;
    while i <= v.len()
        invariant
            i <= v.len(),
            find_from(v@, pat@, from as nat) == find_from(v@, pat@, i as nat),
        decreases v@.len() + 1 - i,
    {
        if pat.len() > v.len() || i > v.len() - pat.len() {
            return None;
        }
        if occurs_at_exec(v, pat, i) {
            return Some(i);
        }
        if i == v.len() {
            assert(find_from(v@, pat@, (i + 1) as nat) is None);
            return None;
        }
        i = i + 1;
    }
    None
}

/// Whether `s` begins with `p`.
pub fn starts_with(s: &str, p: &str) -> (r: bool)
    ensures
        r == starts_with_spec(s@, p@),
{
    let v = chars_of(s);
    let w = chars_of(p);
    if w.len() > v.len() {
        return false;
    }
    let r = occurs_at_exec(&v, &w, 0);
    assert(v@.subrange(0, w@.len() as int) == v@.take(w@.len() as int));
    r
}

/// `s` split around the first occurrence of `pat` (`str::split_once`).
pub fn split_once<'a>(s: &'a str, pat: &str) -> (r: Option<(&'a str, &'a str)>)
    ensures
        match r {
            Some((a, b)) => split_once_spec(s@, pat@) == Some((a@, b@)),
            None => split_once_spec(s@, pat@) is None,
        },
{
    let v = chars_of(s);
    let w = chars_of(pat);
    let n = v.len();
    match find_in(&v, &w, 0) {
        Some(i) => {
            proof {
                lemma_find_from(v@, w@, 0);
            }
            let a = s.substring_char(0, i);
            let b = s.substring_char(i + w.len(), n);
            assert(a@ == s@.take(i as int));
            assert(b@ == s@.skip(i + w@.len()));
            Some((a, b))
        },
        None => None,
    }
}


/// Whether `a` and `b` hold the same characters.
pub fn str_eq(a: &str, b: &str) -> (r: bool)
    ensures
        r == (a@ == b@),
{
    let v = chars_of(a);
    let w = chars_of(b);
    if v.len() != w.len() {
        return false;
    }
    let n = v.len();
    let mut k: usize = 0;
    while k < n
        invariant
            k <= n == v@.len() == w@.len(),
            v@ == a@,
            w@ == b@,
            forall|m: int| 0 <= m < k ==> v@[m] == w@[m],
        decreases n - k,
    {
        if v[k] != w[k] {
            assert(v@[k as int] != w@[k as int]);
            return false;
        }
        k = k + 1;
    }
    assert(v@ =~= w@);
    true
}


/// `String::push` appends one character.
pub assume_specification[ String::push ](s: &mut String, ch: char)
    ensures
        final(s)@ == old(s)@.push(ch),
;

/// The decimal digit for `d`, `0 <= d < 10`.
pub open spec fn digit_char(d: int) -> char {
    ('0' as int + d) as char
}

/// The decimal numeral of a natural number, without leading zeros.
pub open spec fn nat_decimal(n: nat) -> Seq<char>
    decreases n,
{
    if n < 10 {
        seq![digit_char(n as int)]
    } else {
        nat_decimal(n / 10) + seq![digit_char((n % 10) as int)]
    }
}

/// The decimal numeral of an integer as `Display` writes it: a `-` before
/// a negative number.
pub open spec fn int_decimal(n: int) -> Seq<char> {
    if n < 0 {
        seq!['-'] + nat_decimal((-n) as nat)
    } else {
        nat_decimal(n as nat)
    }
}

/// The text `true` or `false`, as `Display` writes a `bool`.
pub open spec fn bool_text(b: bool) -> Seq<char> {
    if b {
        "true"@
    } else {
        "false"@
    }
}

/// Appends the decimal numeral of `n` to `s`.
fn push_nat_decimal(s: &mut String, n: u64)
    ensures
        final(s)@ == old(s)@ + nat_decimal(n as nat),
    decreases n,
{
    if n >= 10 {
        push_nat_decimal(s, n / 10);
    }
    let d = (n % 10) as u8;
    let c = (48u8 + d) as char;
    assert(c == digit_char((n % 10) as int));
    s.push(c);
    proof {
        if n >= 10 {
            assert(nat_decimal(n as nat) == nat_decimal((n / 10) as nat) + seq![digit_char((n % 10) as int)]);
        }
    }
}

/// The decimal numeral of `n` (`i32::to_string`).
pub fn i32_to_decimal(n: i32) -> (r: String)
    ensures
        r@ == int_decimal(n as int),
{
    let mut s = String::new();
    if n < 0 {
        s.push('-');
        let m: i64 = n as i64;
        push_nat_decimal(&mut s, (-m) as u64);
    } else {
        push_nat_decimal(&mut s, n as u64);
    }
    s
}

/// The text `true` or `false`.
pub fn bool_to_text(b: bool) -> (r: &'static str)
    ensures
        r@ == bool_text(b),
{
    if b {
        "true"
    } else {
        "false"
    }
}


/// `s` without every leading and every trailing occurrence of `c`
/// (`str::trim_start_matches` followed by `str::trim_end_matches`).
pub fn trim_char_matches(s: &str, c: char) -> (r: &str)
    ensures
        r@ == strip_trailing(strip_leading(s@, c), c),
{
    let v = chars_of(s);
    let n = v.len();
    let mut a: usize = 0;
    assert(v@.subrange(0, n as int) == v@);
    while a < n && v[a] == c
        invariant
            a <= n == v@.len(),
            strip_leading(v@, c) == strip_leading(v@.subrange(a as int, n as int), c),
        decreases n - a,
    {
        assert(v@.subrange(a as int, n as int).drop_first() == v@.subrange(a + 1, n as int));
        a = a + 1;
    }
    assert(strip_leading(v@, c) == v@.subrange(a as int, n as int));
    let mut b: usize = n;
    while b > a && v[b - 1] == c
        invariant
            a <= b <= n == v@.len(),
            strip_leading(v@, c) == v@.subrange(a as int, n as int),
            strip_trailing(strip_leading(v@, c), c) == strip_trailing(
                v@.subrange(a as int, b as int),
                c,
            ),
        decreases b - a,
    {
        assert(v@.subrange(a as int, b as int).drop_last() == v@.subrange(a as int, b - 1));
        b = b - 1;
    }
    s.substring_char(a, b)
}

/// `base` extended by `seg` as `PathBuf::push` does it on Unix: an
/// absolute `seg` replaces `base`; otherwise a `/` separates the two where
/// `base` is not empty and does not already end with one.
pub open spec fn path_join(base: Seq<char>, seg: Seq<char>) -> Seq<char> {
    if seg.len() > 0 && seg[0] == '/' {
        seg
    } else if base.len() > 0 && base.last() != '/' {
        base + "/"@ + seg
    } else {
        base + seg
    }
}

/// `base` extended by `seg` (`Path::join`), as text.
pub fn join_path(base: &str, seg: &str) -> (r: String)
    ensures
        r@ == path_join(base@, seg@),
{
    let b = chars_of(base);
    let t = chars_of(seg);
    if t.len() > 0 && t[0] == '/' {
        return seg.to_owned();
    }
    let mut r = base.to_owned();
    if b.len() > 0 && b[b.len() - 1] != '/' {
        r.append("/");
    }
    r.append(seg);
    r
}


/// `trim_start_spec` leaves nothing or a first character that is not
/// white space.
pub proof fn lemma_trim_start_front(s: Seq<char>)
    ensures
        trim_start_spec(s).len() == 0 || !is_white_space(trim_start_spec(s)[0]),
    decreases s.len(),
{
    if s.len() > 0 && is_white_space(s[0]) {
        lemma_trim_start_front(s.drop_first());
    }
}

/// `trim_end_spec` keeps a prefix of `s`.
pub proof fn lemma_trim_end_prefix(s: Seq<char>)
    ensures
        trim_end_spec(s).len() <= s.len(),
        trim_end_spec(s) == s.take(trim_end_spec(s).len() as int),
    decreases s.len(),
{
    if s.len() > 0 && is_white_space(s.last()) {
        lemma_trim_end_prefix(s.drop_last());
        assert(s.drop_last().take(trim_end_spec(s).len() as int) == s.take(
            trim_end_spec(s).len() as int,
        ));
    } else {
        assert(s.take(s.len() as int) == s);
    }
}

/// `trim_end_spec` leaves nothing or a last character that is not white
/// space, so a second trim changes nothing.
pub proof fn lemma_trim_end_idempotent(s: Seq<char>)
    ensures
        trim_end_spec(trim_end_spec(s)) == trim_end_spec(s),
    decreases s.len(),
{
    if s.len() > 0 && is_white_space(s.last()) {
        lemma_trim_end_idempotent(s.drop_last());
    }
}

/// Trimming twice is trimming once.
pub proof fn lemma_trim_idempotent(s: Seq<char>)
    ensures
        trim_spec(trim_spec(s)) == trim_spec(s),
{
    let u = trim_start_spec(s);
    let t = trim_end_spec(u);
    lemma_trim_start_front(s);
    lemma_trim_end_prefix(u);
    lemma_trim_end_idempotent(u);
    if t.len() > 0 {
        assert(t[0] == u[0]);
    }
    assert(trim_start_spec(t) == t);
}

/// The least index at or after `from` where `pat` occurs is what
/// `find_from` returns.
pub proof fn lemma_find_from_least(s: Seq<char>, pat: Seq<char>, from: nat, i: nat)
    requires
        from <= i,
        occurs_at(s, pat, i as int),
        forall|j: int| from <= j < i ==> !#[trigger] occurs_at(s, pat, j),
    ensures
        find_from(s, pat, from) == Some(i),
    decreases i - from,
{
    if from < i {
        assert(!occurs_at(s, pat, from as int));
        lemma_find_from_least(s, pat, from + 1, i);
    }
}

/// The lines of `a + b`, where `a` is empty or ends with `'\n'`, are the
/// lines of `a` followed by those of `b`.
pub proof fn lemma_lines_concat(a: Seq<char>, b: Seq<char>)
    requires
        a.len() == 0 || a.last() == '\n',
    ensures
        lines_spec(a + b) == lines_spec(a) + lines_spec(b),
    decreases a.len(),
{
    let nl = seq!['\n'];
    if a.len() == 0 {
        assert(a + b == b);
        assert(lines_spec(a) + lines_spec(b) == lines_spec(b));
    } else {
        lemma_find_from(a, nl, 0);
        assert(occurs_at(a, nl, a.len() - 1)) by {
            assert(a.subrange(a.len() - 1, a.len() as int) == nl);
        }
        let i: int = find_from(a, nl, 0)->Some_0 as int;
        let ab = a + b;
        assert(occurs_at(ab, nl, i)) by {
            assert(ab.subrange(i, i + 1) == a.subrange(i, i + 1));
        }
        assert forall|j: int| 0 <= j < i implies !#[trigger] occurs_at(ab, nl, j) by {
            assert(ab.subrange(j, j + 1) == a.subrange(j, j + 1));
            assert(!occurs_at(a, nl, j));
        }
        lemma_find_from_least(ab, nl, 0, i as nat);
        let rest = a.skip(i + 1);
        assert(ab.take(i) == a.take(i));
        assert(ab.skip(i + 1) == rest + b);
        if rest.len() > 0 {
            assert(rest.last() == a.last());
        }
        lemma_lines_concat(rest, b);
        assert(lines_spec(ab) == seq![strip_cr(a.take(i))] + lines_spec(rest + b));
        assert(lines_spec(a) == seq![strip_cr(a.take(i))] + lines_spec(rest));
        assert(lines_spec(ab) == lines_spec(a) + lines_spec(b));
    }
}


/// Dropping a last character that is white space does not change the
/// trimmed text.
pub proof fn lemma_trim_drop_white_last(x: Seq<char>)
    requires
        x.len() > 0,
        is_white_space(x.last()),
    ensures
        trim_spec(x.drop_last()) == trim_spec(x),
    decreases x.len(),
{
    let y = x.drop_last();
    if is_white_space(x[0]) {
        if x.len() == 1 {
            assert(trim_start_spec(x.drop_first()) == x.drop_first());
            assert(x.drop_first().len() == 0);
            assert(y.len() == 0);
        } else {
            let z = x.drop_first();
            assert(z.last() == x.last());
            lemma_trim_drop_white_last(z);
            assert(y[0] == x[0]);
            assert(y.drop_first() == z.drop_last());
            assert(trim_start_spec(y) == trim_start_spec(y.drop_first()));
            assert(trim_start_spec(x) == trim_start_spec(z));
        }
    } else {
        assert(x.len() >= 2);
        assert(y[0] == x[0]);
        assert(trim_start_spec(x) == x);
        assert(trim_start_spec(y) == y);
    }
}


/// The value of a decimal digit character.
pub open spec fn digit_value(c: char) -> int {
    c as int - '0' as int
}

/// The number that a string of decimal digits denotes.
pub open spec fn nat_value(s: Seq<char>) -> int
    decreases s.len(),
{
    if s.len() == 0 {
        0
    } else {
        nat_value(s.drop_last()) * 10 + digit_value(s.last())
    }
}

/// The number that a decimal numeral denotes, with a leading `-` for a
/// negative one.
pub open spec fn int_value(s: Seq<char>) -> int {
    if s.len() > 0 && s[0] == '-' {
        -nat_value(s.drop_first())
    } else {
        nat_value(s)
    }
}

/// The numeral of a natural number is a nonempty string of digits that
/// denotes it.
pub proof fn lemma_nat_decimal_value(n: nat)
    ensures
        nat_decimal(n).len() > 0,
        '0' <= nat_decimal(n)[0] <= '9',
        nat_value(nat_decimal(n)) == n,
    decreases n,
{
    if n < 10 {
        assert(digit_value(digit_char(n as int)) == n);
        let s = seq![digit_char(n as int)];
        assert(s.drop_last() == Seq::<char>::empty());
        assert(nat_value(s.drop_last()) == 0);
        assert(nat_value(s) == nat_value(s.drop_last()) * 10 + digit_value(s.last()));
    } else {
        lemma_nat_decimal_value(n / 10);
        let s = nat_decimal(n);
        let d = (n % 10) as int;
        assert(s.drop_last() == nat_decimal(n / 10));
        assert(s.last() == digit_char(d));
        assert(digit_value(digit_char(d)) == d);
        assert(s[0] == nat_decimal(n / 10)[0]);
        assert((n / 10) * 10 + n % 10 == n);
        assert(nat_value(s) == nat_value(s.drop_last()) * 10 + digit_value(s.last()));
    }
}

/// The numeral of an integer denotes it: `int_value` reads back what
/// `int_decimal` writes.
pub proof fn lemma_int_decimal_value(n: int)
    ensures
        int_value(int_decimal(n)) == n,
{
    if n < 0 {
        lemma_nat_decimal_value((-n) as nat);
        let s = int_decimal(n);
        assert(s.drop_first() == nat_decimal((-n) as nat));
    } else {
        lemma_nat_decimal_value(n as nat);
    }
}

} // verus!
