//! Character-level text helpers shared by the generators: PHP quoting,
//! identifier case conversions, labels, plurals and decimal numbers.
use vstd::prelude::*;
use vstd::string::StringExecFns;
use vstd::string::StrSliceExecFns;

verus! {

// ---------------------------------------------------------------------------
// Trusted std string operations
// ---------------------------------------------------------------------------

/// `String::push`: appends one character to the end of the string.
#[verifier::external_body]
pub(crate) fn push_char(s: &mut String, c: char)
    ensures
        final(s)@ == old(s)@.push(c),
{
    s.push(c);
}

/// Whether two string slices hold the same characters.
pub fn str_eq(a: &str, b: &str) -> (r: bool)
    ensures
        r == (a@ == b@),
{
    let x = chars_of(a);
    let y = chars_of(b);
    if x.len() != y.len() {
        return false;
    }
    let n = x.len();
    let mut i: usize = 0;
    while i < n
        invariant
            i <= n == x@.len() == y@.len(),
            x@ == a@,
            y@ == b@,
            forall|j: int| 0 <= j < i ==> x@[j] == y@[j],
        decreases n - i,
    {
        if x[i] != y[i] {
            return false;
        }
        i = i + 1;
    }
    assert(x@ =~= y@);
    true
}

/// What `char::to_lowercase` yields for a character (Unicode's full lowercase
/// mapping, one or more characters).
pub uninterp spec fn lowercase_char(c: char) -> Seq<char>;

/// `char::to_lowercase`, collected into a `String`. The contract names the
/// result and states nothing more of Unicode's case tables.
#[verifier::external_body]
pub(crate) fn char_to_lowercase(c: char) -> (r: String)
    ensures
        r@ == lowercase_char(c),
{
    c.to_lowercase().collect::<String>()
}

/// What `str::to_lowercase` returns for a string.
pub uninterp spec fn lowercase_str(s: Seq<char>) -> Seq<char>;

/// `str::to_lowercase`. The contract names the result and states nothing more
/// of Unicode's case tables.
#[verifier::external_body]
pub(crate) fn str_to_lowercase(s: &str) -> (r: String)
    ensures
        r@ == lowercase_str(s@),
{
    s.to_lowercase()
}

/// What `str::to_uppercase` returns for a string.
pub uninterp spec fn uppercase_str(s: Seq<char>) -> Seq<char>;

/// `str::to_uppercase`. The contract names the result and states nothing more
/// of Unicode's case tables.
#[verifier::external_body]
pub(crate) fn str_to_uppercase(s: &str) -> (r: String)
    ensures
        r@ == uppercase_str(s@),
{
    s.to_uppercase()
}

// ---------------------------------------------------------------------------
// Small building blocks
// ---------------------------------------------------------------------------

/// Appends `t` to `s`.
pub fn append_str(s: &mut String, t: &str)
    ensures
        final(s)@ == old(s)@ + t@,
{
    s.append(t);
}

/// A fresh copy of a string slice.
pub fn owned(s: &str) -> (r: String)
    ensures
        r@ == s@,
{
    String::from_str(s)
}

/// The text of a boolean as Rust and PHP print it.
pub open spec fn bool_text(b: bool) -> Seq<char> {
    if b {
        seq!['t', 'r', 'u', 'e']
    } else {
        seq!['f', 'a', 'l', 's', 'e']
    }
}

pub fn push_bool(s: &mut String, b: bool)
    ensures
        final(s)@ == old(s)@ + bool_text(b),
{
    if b {
        push_char(s, 't');
        push_char(s, 'r');
        push_char(s, 'u');
        push_char(s, 'e');
    } else {
        push_char(s, 'f');
        push_char(s, 'a');
        push_char(s, 'l');
        push_char(s, 's');
        push_char(s, 'e');
    }
}

/// `n` levels of four-space indentation.
pub open spec fn indent(n: nat) -> Seq<char>
    decreases n,
{
    if n == 0 {
        Seq::empty()
    } else {
        indent((n - 1) as nat) + seq![' ', ' ', ' ', ' ']
    }
}

pub fn push_indent(s: &mut String, n: usize)
    ensures
        final(s)@ == old(s)@ + indent(n as nat),
{
    let ghost start = s@;
    let mut i: usize = 0;
    while i < n
        invariant
            i <= n,
            s@ == start + indent(i as nat),
        decreases n - i,
    {
        push_char(s, ' ');
        push_char(s, ' ');
        push_char(s, ' ');
        push_char(s, ' ');
        i = i + 1;
        assert(s@ =~= start + indent(i as nat));
    }
}

/// The decimal digit character for `d < 10`.
pub open spec fn digit_char(d: nat) -> char {
    ((d + 48) as char)
}

/// The decimal text of a natural number, without sign or leading zeros.
pub open spec fn decimal(n: nat) -> Seq<char>
    decreases n,
{
    if n < 10 {
        seq![digit_char(n)]
    } else {
        decimal(n / 10).push(digit_char(n % 10))
    }
}

pub fn push_decimal(s: &mut String, n: u64)
    ensures
        final(s)@ == old(s)@ + decimal(n as nat),
    decreases n,
{
    if n < 10 {
        let d = n as u8;
        push_char(s, (d + 48) as char);
        assert(s@ =~= old(s)@ + decimal(n as nat));
    } else {
        push_decimal(s, n / 10);
        let d = (n % 10) as u8;
        push_char(s, (d + 48) as char);
        assert(s@ =~= old(s)@ + decimal(n as nat));
    }
}

/// The characters of a string slice, one per element.
pub fn chars_of(s: &str) -> (r: Vec<char>)
    ensures
        r@ == s@,
{
    let mut r: Vec<char> = Vec::new();
    for c in it: s.chars()
        invariant
            it.seq() == s@,
            r@ == s@.take(it.index() as int),
    {
        r.push(c);
    }
    r
}

/// A string holding the characters `v[from..to]`.
pub fn string_of(v: &Vec<char>, from: usize, to: usize) -> (r: String)
    requires
        from <= to <= v@.len(),
    ensures
        r@ == v@.subrange(from as int, to as int),
{
    let mut r = String::new();
    let mut i = from;
    while i < to
        invariant
            from <= i <= to <= v@.len(),
            r@ == v@.subrange(from as int, i as int),
        decreases to - i,
    {
        push_char(&mut r, v[i]);
        i = i + 1;
        assert(r@ =~= v@.subrange(from as int, i as int));
    }
    r
}

// ---------------------------------------------------------------------------
// ASCII case
// ---------------------------------------------------------------------------

pub open spec fn is_ascii_upper(c: char) -> bool {
    'A' <= c <= 'Z'
}

/// `char::to_ascii_lowercase`: `A`..`Z` become `a`..`z`, every other character
/// stays as it is.
pub open spec fn ascii_lower(c: char) -> char {
    if is_ascii_upper(c) {
        ((c as u32 + 32) as char)
    } else {
        c
    }
}

pub fn to_ascii_lower(c: char) -> (r: char)
    ensures
        r == ascii_lower(c),
{
    if 'A' <= c && c <= 'Z' {
        let b = c as u8;
        (b + 32) as char
    } else {
        c
    }
}

pub open spec fn ascii_lower_str(s: Seq<char>) -> Seq<char> {
    Seq::new(s.len(), |i: int| ascii_lower(s[i]))
}

// ---------------------------------------------------------------------------
// PHP single-quoted literals
// ---------------------------------------------------------------------------

/// How one character is written inside a PHP single-quoted literal.
pub open spec fn escape_char(c: char) -> Seq<char> {
    if c == '\\' {
        seq!['\\', '\\']
    } else if c == '\'' {
        seq!['\\', '\'']
    } else {
        seq![c]
    }
}

pub open spec fn escaped(s: Seq<char>) -> Seq<char>
    decreases s.len(),
{
    if s.len() == 0 {
        Seq::empty()
    } else {
        escaped(s.drop_last()) + escape_char(s.last())
    }
}

/// `s` as a PHP single-quoted string literal: backslashes and quotes are
/// escaped with a backslash, everything else is kept.
pub open spec fn quoted(s: Seq<char>) -> Seq<char> {
    seq!['\''] + escaped(s) + seq!['\'']
}

pub fn push_quoted(out: &mut String, s: &str)
    ensures
        final(out)@ == old(out)@ + quoted(s@),
{
    let ghost start = out@;
    push_char(out, '\'');
    for c in it: s.chars()
        invariant
            it.seq() == s@,
            out@ == start + seq!['\''] + escaped(s@.take(it.index() as int)),
    {
        let ghost i = it.index() as int;
        assert(s@.take(i + 1).drop_last() =~= s@.take(i));
        if c == '\\' {
            push_char(out, '\\');
            push_char(out, '\\');
        } else if c == '\'' {
            push_char(out, '\\');
            push_char(out, '\'');
        } else {
            push_char(out, c);
        }
        assert(out@ =~= start + seq!['\''] + escaped(s@.take(i + 1)));
    }
    assert(s@.take(s@.len() as int) =~= s@);
    push_char(out, '\'');
    assert(out@ =~= start + quoted(s@));
}

/// The PHP single-quoted literal of `s`.
pub fn q(s: &str) -> (r: String)
    ensures
        r@ == quoted(s@),
{
    let mut r = String::new();
    push_quoted(&mut r, s);
    assert(r@ =~= quoted(s@));
    r
}

// ---------------------------------------------------------------------------
// Identifier conversions
// ---------------------------------------------------------------------------

/// The first character lowercased (Unicode mapping), the rest unchanged.
pub open spec fn low_spec(s: Seq<char>) -> Seq<char> {
    if s.len() == 0 {
        Seq::empty()
    } else {
        lowercase_char(s[0]) + s.drop_first()
    }
}

/// Lowercases the first character of `s`.
pub fn low(s: &str) -> (r: String)
    ensures
        r@ == low_spec(s@),
{
    let n = s.unicode_len();
    if n == 0 {
        String::new()
    } else {
        let mut r = char_to_lowercase(s.get_char(0));
        append_str(&mut r, s.substring_char(1, n));
        assert(s@.subrange(1, n as int) =~= s@.drop_first());
        r
    }
}

/// What `snake` writes for the character at position `i`.
pub open spec fn snake_piece(c: char, i: int) -> Seq<char> {
    if i > 0 && is_ascii_upper(c) {
        seq!['_', ascii_lower(c)]
    } else {
        seq![ascii_lower(c)]
    }
}

pub open spec fn snake_spec(s: Seq<char>) -> Seq<char>
    decreases s.len(),
{
    if s.len() == 0 {
        Seq::empty()
    } else {
        snake_spec(s.drop_last()) + snake_piece(s.last(), s.len() - 1)
    }
}

/// camelCase or PascalCase to snake_case: every ASCII capital after the first
/// character gets an underscore before it, and all ASCII capitals are
/// lowercased.
pub fn snake(s: &str) -> (r: String)
    ensures
        r@ == snake_spec(s@),
{
    let mut r = String::new();
    let mut first = true;
    for c in it: s.chars()
        invariant
            it.seq() == s@,
            first == (it.index() == 0),
            r@ == snake_spec(s@.take(it.index() as int)),
    {
        let ghost i = it.index() as int;
        assert(s@.take(i + 1).drop_last() =~= s@.take(i));
        if !first && 'A' <= c && c <= 'Z' {
            push_char(&mut r, '_');
        }
        first = false;
        push_char(&mut r, to_ascii_lower(c));
        assert(r@ =~= snake_spec(s@.take(i + 1)));
    }
    assert(s@.take(s@.len() as int) =~= s@);
    r
}

// ---------------------------------------------------------------------------
// Labels
// ---------------------------------------------------------------------------

/// Unicode `White_Space`, which `str::trim` removes at both ends.
pub open spec fn is_white_space(c: char) -> bool {
    let u = c as u32;
    ||| 0x09 <= u <= 0x0d
    ||| u == 0x20
    ||| u == 0x85
    ||| u == 0xa0
    ||| u == 0x1680
    ||| 0x2000 <= u <= 0x200a
    ||| u == 0x2028
    ||| u == 0x2029
    ||| u == 0x202f
    ||| u == 0x205f
    ||| u == 0x3000
}

pub fn white_space(c: char) -> (r: bool)
    ensures
        r == is_white_space(c),
{
    let u = c as u32;
    (0x09 <= u && u <= 0x0d) || u == 0x20 || u == 0x85 || u == 0xa0 || u == 0x1680 || (0x2000
        <= u && u <= 0x200a) || u == 0x2028 || u == 0x2029 || u == 0x202f || u == 0x205f || u
        == 0x3000
}

pub open spec fn trim_start(s: Seq<char>) -> Seq<char>
    decreases s.len(),
{
    if s.len() > 0 && is_white_space(s[0]) {
        trim_start(s.drop_first())
    } else {
        s
    }
}

pub open spec fn trim_end(s: Seq<char>) -> Seq<char>
    decreases s.len(),
{
    if s.len() > 0 && is_white_space(s.last()) {
        trim_end(s.drop_last())
    } else {
        s
    }
}

/// `str::trim`: white space removed at both ends.
pub open spec fn trimmed(s: Seq<char>) -> Seq<char> {
    trim_end(trim_start(s))
}

proof fn lemma_trim_start_skip(s: Seq<char>, i: int)
    requires
        0 <= i <= s.len(),
        forall|j: int| 0 <= j < i ==> is_white_space(#[trigger] s[j]),
    ensures
        trim_start(s) == trim_start(s.skip(i)),
    decreases i,
{
    if i > 0 {
        assert(s.drop_first().skip(i - 1) =~= s.skip(i));
        lemma_trim_start_skip(s.drop_first(), i - 1);
    } else {
        assert(s.skip(0) =~= s);
    }
}

proof fn lemma_trim_end_take(s: Seq<char>, i: int)
    requires
        0 <= i <= s.len(),
        forall|j: int| i <= j < s.len() ==> is_white_space(#[trigger] s[j]),
    ensures
        trim_end(s) == trim_end(s.take(i)),
    decreases s.len() - i,
{
    if i < s.len() {
        assert(s.drop_last().take(i) =~= s.take(i));
        lemma_trim_end_take(s.drop_last(), i);
    } else {
        assert(s.take(i) =~= s);
    }
}

/// `v[..]` with white space removed at both ends.
pub fn trim_chars(v: &Vec<char>) -> (r: String)
    ensures
        r@ == trimmed(v@),
{
    let n = v.len();
    let mut a: usize = 0;
    while a < n && white_space(v[a])
        invariant
            a <= n == v@.len(),
            forall|j: int| 0 <= j < a ==> is_white_space(#[trigger] v@[j]),
        decreases n - a,
    {
        a = a + 1;
    }
    proof {
        lemma_trim_start_skip(v@, a as int);
    }
    let mut b: usize = n;
    while b > a && white_space(v[b - 1])
        invariant
            a <= b <= n == v@.len(),
            forall|j: int| b <= j < n ==> is_white_space(#[trigger] v@[j]),
        decreases b,
    {
        b = b - 1;
    }
    proof {
        let t = v@.skip(a as int);
        assert(a < n && !is_white_space(v@[a as int]) ==> trim_start(t) == t);
        assert(trim_start(t) == t);
        lemma_trim_end_take(t, (b - a) as int);
        assert(t.take((b - a) as int) =~= v@.subrange(a as int, b as int));
        let u = v@.subrange(a as int, b as int);
        assert(u.len() > 0 ==> !is_white_space(u.last()));
        assert(trim_end(u) == u);
    }
    string_of(v, a, b)
}

/// What `humanise` writes for the character at position `i`.
pub open spec fn spaced_piece(c: char, i: int) -> Seq<char> {
    if i > 0 && is_ascii_upper(c) {
        seq![' ', c]
    } else {
        seq![c]
    }
}

pub open spec fn spaced(s: Seq<char>) -> Seq<char>
    decreases s.len(),
{
    if s.len() == 0 {
        Seq::empty()
    } else {
        spaced(s.drop_last()) + spaced_piece(s.last(), s.len() - 1)
    }
}

/// A PascalCase name as words: a space before every ASCII capital after the
/// first character, then white space trimmed at both ends.
pub open spec fn humanise_spec(s: Seq<char>) -> Seq<char> {
    trimmed(spaced(s))
}

pub fn humanise(n: &str) -> (r: String)
    ensures
        r@ == humanise_spec(n@),
{
    let mut v: Vec<char> = Vec::new();
    let mut first = true;
    for c in it: n.chars()
        invariant
            it.seq() == n@,
            first == (it.index() == 0),
            v@ == spaced(n@.take(it.index() as int)),
    {
        let ghost i = it.index() as int;
        assert(n@.take(i + 1).drop_last() =~= n@.take(i));
        if !first && 'A' <= c && c <= 'Z' {
            v.push(' ');
        }
        first = false;
        v.push(c);
        assert(v@ =~= spaced(n@.take(i + 1)));
    }
    assert(n@.take(n@.len() as int) =~= n@);
    trim_chars(&v)
}

pub open spec fn is_vowel(c: char) -> bool {
    c == 'a' || c == 'e' || c == 'i' || c == 'o' || c == 'u'
}

/// English plural of a label. Decided on the ASCII-lowercased label: after
/// `s`, `x`, `z`, `ch` or `sh` comes `es`; a `y` after a character that is not
/// an ASCII vowel becomes `ies`; everything else takes `s`.
///
/// (The character before the final `y` is read as the byte before it, which
/// is an ASCII vowel exactly when that character is one.)
pub open spec fn plural_spec(s: Seq<char>) -> Seq<char> {
    let l = ascii_lower_str(s);
    let n = l.len();
    if (n >= 1 && (l[n - 1] == 's' || l[n - 1] == 'x' || l[n - 1] == 'z')) || (n >= 2 && l[n
        - 1] == 'h' && (l[n - 2] == 'c' || l[n - 2] == 's')) {
        s + seq!['e', 's']
    } else if n >= 2 && l[n - 1] == 'y' && !is_vowel(l[n - 2]) {
        s.drop_last() + seq!['i', 'e', 's']
    } else {
        s + seq!['s']
    }
}

pub fn plural(s: &str) -> (r: String)
    ensures
        r@ == plural_spec(s@),
{
    let v = chars_of(s);
    let n = v.len();
    let ghost l = ascii_lower_str(s@);
    let last = if n >= 1 {
        to_ascii_lower(v[n - 1])
    } else {
        ' '
    };
    let before = if n >= 2 {
        to_ascii_lower(v[n - 2])
    } else {
        ' '
    };
    let es = (n >= 1 && (last == 's' || last == 'x' || last == 'z')) || (n >= 2 && last == 'h' && (
    before == 'c' || before == 's'));
    if es {
        let mut r = string_of(&v, 0, n);
        push_char(&mut r, 'e');
        push_char(&mut r, 's');
        assert(v@.subrange(0, n as int) =~= s@);
        r
    } else if n >= 2 && last == 'y' && !(before == 'a' || before == 'e' || before == 'i' || before
        == 'o' || before == 'u') {
        let mut r = string_of(&v, 0, n - 1);
        push_char(&mut r, 'i');
        push_char(&mut r, 'e');
        push_char(&mut r, 's');
        assert(v@.subrange(0, n - 1) =~= s@.drop_last());
        r
    } else {
        let mut r = string_of(&v, 0, n);
        push_char(&mut r, 's');
        assert(v@.subrange(0, n as int) =~= s@);
        r
    }
}

// ---------------------------------------------------------------------------
// Ordering of keys
// ---------------------------------------------------------------------------

/// The order of `String` keys in a `BTreeMap`: lexicographic by character
/// (that is, by code point, as UTF-8 bytes order them), a proper prefix
/// coming first.
pub open spec fn str_lt(a: Seq<char>, b: Seq<char>) -> bool
    decreases a.len(),
{
    if a.len() == 0 {
        b.len() > 0
    } else if b.len() == 0 {
        false
    } else if a[0] != b[0] {
        a[0] < b[0]
    } else {
        str_lt(a.drop_first(), b.drop_first())
    }
}

proof fn lemma_str_lt_skip(a: Seq<char>, b: Seq<char>, i: int)
    requires
        0 <= i <= a.len(),
        i <= b.len(),
        a.take(i) == b.take(i),
    ensures
        str_lt(a, b) == str_lt(a.skip(i), b.skip(i)),
    decreases i,
{
    if i > 0 {
        assert(a[0] == a.take(i)[0]);
        assert(b[0] == b.take(i)[0]);
        assert(a.drop_first().take(i - 1) =~= a.take(i).drop_first());
        assert(b.drop_first().take(i - 1) =~= b.take(i).drop_first());
        lemma_str_lt_skip(a.drop_first(), b.drop_first(), i - 1);
        assert(a.drop_first().skip(i - 1) =~= a.skip(i));
        assert(b.drop_first().skip(i - 1) =~= b.skip(i));
    } else {
        assert(a.skip(0) =~= a);
        assert(b.skip(0) =~= b);
    }
}

/// Whether `a` sorts before `b`.
pub fn less(a: &str, b: &str) -> (r: bool)
    ensures
        r == str_lt(a@, b@),
{
    let x = chars_of(a);
    let y = chars_of(b);
    let mut i: usize = 0;
    while i < x.len() && i < y.len() && x[i] == y[i]
        invariant
            i <= x@.len(),
            i <= y@.len(),
            x@ == a@,
            y@ == b@,
            x@.take(i as int) == y@.take(i as int),
        decreases x@.len() - i,
    {
        assert(x@.take(i + 1) =~= x@.take(i as int).push(x@[i as int]));
        assert(y@.take(i + 1) =~= y@.take(i as int).push(y@[i as int]));
        i = i + 1;
    }
    proof {
        lemma_str_lt_skip(a@, b@, i as int);
    }
    if i == x.len() {
        i < y.len()
    } else if i == y.len() {
        false
    } else {
        x[i] < y[i]
    }
}


/// No key sorts before itself.
pub proof fn lemma_str_lt_irreflexive(a: Seq<char>)
    ensures
        !str_lt(a, a),
    decreases a.len(),
{
    if a.len() > 0 {
        lemma_str_lt_irreflexive(a.drop_first());
    }
}

/// The key order is transitive.
pub proof fn lemma_str_lt_transitive(a: Seq<char>, b: Seq<char>, c: Seq<char>)
    requires
        str_lt(a, b),
        str_lt(b, c),
    ensures
        str_lt(a, c),
    decreases a.len(),
{
    if a.len() > 0 && b.len() > 0 && c.len() > 0 && a[0] == b[0] && b[0] == c[0] {
        lemma_str_lt_transitive(a.drop_first(), b.drop_first(), c.drop_first());
    }
}

/// Of two different keys, one sorts before the other.
pub proof fn lemma_str_lt_total(a: Seq<char>, b: Seq<char>)
    requires
        a != b,
    ensures
        str_lt(a, b) || str_lt(b, a),
    decreases a.len(),
{
    if a.len() > 0 && b.len() > 0 && a[0] == b[0] {
        if a.drop_first() == b.drop_first() {
            assert(a =~= seq![a[0]] + a.drop_first());
            assert(b =~= seq![b[0]] + b.drop_first());
        }
        lemma_str_lt_total(a.drop_first(), b.drop_first());
    } else if a.len() == 0 && b.len() == 0 {
        assert(a =~= b);
    }
}


/// How PHP reads the inside of a single-quoted literal: `\\` and `\'` stand
/// for `\` and `'`, every other character for itself.
pub open spec fn php_unescape(t: Seq<char>) -> Seq<char>
    decreases t.len(),
{
    if t.len() == 0 {
        Seq::empty()
    } else if t.len() >= 2 && t[0] == '\\' && (t[1] == '\\' || t[1] == '\'') {
        seq![t[1]] + php_unescape(t.skip(2))
    } else {
        seq![t[0]] + php_unescape(t.skip(1))
    }
}

proof fn lemma_escaped_front(c: char, rest: Seq<char>)
    ensures
        escaped(seq![c] + rest) == escape_char(c) + escaped(rest),
    decreases rest.len(),
{
    let s = seq![c] + rest;
    if rest.len() == 0 {
        assert(s.drop_last() =~= Seq::<char>::empty());
        assert(escaped(Seq::<char>::empty()) =~= Seq::<char>::empty());
        assert(escaped(s) =~= escape_char(c) + escaped(rest));
    } else {
        lemma_escaped_front(c, rest.drop_last());
        assert(s.drop_last() =~= seq![c] + rest.drop_last());
        assert(s.last() == rest.last());
        assert(escaped(s) =~= escape_char(c) + escaped(rest));
    }
}

/// Law: PHP reads the inside of `q(s)` back as `s`.
pub proof fn law_quoted_reads_back(s: Seq<char>)
    ensures
        php_unescape(escaped(s)) == s,
        quoted(s) == seq!['\''] + escaped(s) + seq!['\''],
    decreases s.len(),
{
    if s.len() > 0 {
        let c = s[0];
        let rest = s.drop_first();
        assert(s =~= seq![c] + rest);
        lemma_escaped_front(c, rest);
        law_quoted_reads_back(rest);
        let t = escape_char(c) + escaped(rest);
        if c == '\\' || c == '\'' {
            assert(t.skip(2) =~= escaped(rest));
        } else {
            assert(t.skip(1) =~= escaped(rest));
        }
        assert(php_unescape(t) =~= s);
    } else {
        assert(escaped(s) =~= Seq::<char>::empty());
        assert(s =~= Seq::<char>::empty());
    }
}


pub open spec fn has_no_ascii_upper(s: Seq<char>) -> bool {
    forall|i: int| 0 <= i < s.len() ==> !is_ascii_upper(#[trigger] s[i])
}

proof fn lemma_snake_lowercase(s: Seq<char>)
    ensures
        has_no_ascii_upper(snake_spec(s)),
    decreases s.len(),
{
    if s.len() > 0 {
        lemma_snake_lowercase(s.drop_last());
        let a = snake_spec(s.drop_last());
        let b = snake_piece(s.last(), s.len() - 1);
        assert forall|i: int| 0 <= i < (a + b).len() implies !is_ascii_upper(#[trigger] (a + b)[i]) by {
            if i >= a.len() {
                assert((a + b)[i] == b[i - a.len()]);
            }
        }
    }
}

proof fn lemma_snake_fixes_lowercase(s: Seq<char>)
    requires
        has_no_ascii_upper(s),
    ensures
        snake_spec(s) == s,
    decreases s.len(),
{
    if s.len() > 0 {
        assert(has_no_ascii_upper(s.drop_last())) by {
            assert forall|i: int| 0 <= i < s.drop_last().len() implies !is_ascii_upper(
                #[trigger] s.drop_last()[i],
            ) by {
                assert(s.drop_last()[i] == s[i]);
            }
        }
        lemma_snake_fixes_lowercase(s.drop_last());
        assert(!is_ascii_upper(s[s.len() - 1]));
        assert(snake_spec(s) =~= s);
    }
}

/// Law: snake case is a fixed point: a column name converted again stays
/// the same, and holds no ASCII capital.
pub proof fn law_snake_idempotent(s: Seq<char>)
    ensures
        has_no_ascii_upper(snake_spec(s)),
        snake_spec(snake_spec(s)) == snake_spec(s),
{
    lemma_snake_lowercase(s);
    lemma_snake_fixes_lowercase(snake_spec(s));
}


/// Law: the order of map keys is a strict total order: no key sorts before
/// itself, the order is transitive, and of two different keys one sorts
/// first.
pub proof fn law_key_order(a: Seq<char>, b: Seq<char>, c: Seq<char>)
    ensures
        !str_lt(a, a),
        str_lt(a, b) && str_lt(b, c) ==> str_lt(a, c),
        a != b ==> str_lt(a, b) || str_lt(b, a),
{
    lemma_str_lt_irreflexive(a);
    if str_lt(a, b) && str_lt(b, c) {
        lemma_str_lt_transitive(a, b, c);
    }
    if a != b {
        lemma_str_lt_total(a, b);
    }
}


// ---------------------------------------------------------------------------
// Laws of the labels and column names
// ---------------------------------------------------------------------------

/// `s` with every occurrence of `c` removed.
pub open spec fn without(s: Seq<char>, c: char) -> Seq<char>
    decreases s.len(),
{
    if s.len() == 0 {
        Seq::empty()
    } else {
        let r = without(s.drop_last(), c);
        if s.last() == c {
            r
        } else {
            r.push(s.last())
        }
    }
}

proof fn lemma_without_concat(a: Seq<char>, b: Seq<char>, c: char)
    ensures
        without(a + b, c) == without(a, c) + without(b, c),
    decreases b.len(),
{
    if b.len() == 0 {
        assert(a + b =~= a);
        assert(without(a, c) + without(b, c) =~= without(a, c));
    } else {
        lemma_without_concat(a, b.drop_last(), c);
        assert((a + b).drop_last() =~= a + b.drop_last());
        assert((a + b).last() == b.last());
        assert(without(a + b, c) =~= without(a, c) + without(b, c));
    }
}

proof fn lemma_without_absent(s: Seq<char>, c: char)
    requires
        forall|i: int| 0 <= i < s.len() ==> s[i] != c,
    ensures
        without(s, c) == s,
    decreases s.len(),
{
    if s.len() > 0 {
        lemma_without_absent(s.drop_last(), c);
        assert(without(s, c) =~= s);
    }
}

proof fn lemma_without_one(x: char, c: char)
    ensures
        without(seq![x], c) == (if x == c {
            Seq::<char>::empty()
        } else {
            seq![x]
        }),
{
    assert(seq![x].drop_last() =~= Seq::<char>::empty());
    assert(without(Seq::<char>::empty(), c) =~= Seq::<char>::empty());
    assert(Seq::<char>::empty().push(x) =~= seq![x]);
}

proof fn lemma_without_two(x: char, y: char, c: char)
    ensures
        without(seq![x, y], c) == without(seq![x], c) + without(seq![y], c),
{
    lemma_without_concat(seq![x], seq![y], c);
    assert(seq![x] + seq![y] =~= seq![x, y]);
}

/// Law: snake case only adds underscores and lowercases ASCII capitals:
/// with the underscores taken out, `snake(s)` is `s` lowercased (ASCII) with
/// its underscores taken out.
pub proof fn law_snake_keeps_letters(s: Seq<char>)
    ensures
        without(snake_spec(s), '_') == without(ascii_lower_str(s), '_'),
    decreases s.len(),
{
    if s.len() > 0 {
        let p = s.drop_last();
        let c = s.last();
        law_snake_keeps_letters(p);
        lemma_without_concat(snake_spec(p), snake_piece(c, s.len() - 1), '_');
        assert(ascii_lower_str(s).drop_last() =~= ascii_lower_str(p));
        assert(ascii_lower_str(s).last() == ascii_lower(c));
        let x = ascii_lower(c);
        lemma_without_one(x, '_');
        lemma_without_one('_', '_');
        lemma_without_two('_', x, '_');
        assert(without(snake_piece(c, s.len() - 1), '_') =~= without(seq![x], '_'));
        assert(without(snake_spec(s), '_') =~= without(ascii_lower_str(s), '_'));
    } else {
        assert(ascii_lower_str(s) =~= Seq::<char>::empty());
    }
}

/// The ASCII capitals of `s` after its first character.
pub open spec fn inner_capitals(s: Seq<char>) -> nat
    decreases s.len(),
{
    if s.len() == 0 {
        0
    } else {
        inner_capitals(s.drop_last()) + if s.len() > 1 && is_ascii_upper(s.last()) {
            1nat
        } else {
            0nat
        }
    }
}

proof fn lemma_spaced(n: Seq<char>)
    requires
        forall|i: int| 0 <= i < n.len() ==> !is_white_space(#[trigger] n[i]),
    ensures
        spaced(n).len() == n.len() + inner_capitals(n),
        n.len() > 0 ==> spaced(n)[0] == n[0] && spaced(n).last() == n.last(),
        without(spaced(n), ' ') == without(n, ' '),
        forall|i: int|
            0 <= i < spaced(n).len() && #[trigger] spaced(n)[i] == ' ' ==> i + 1 < spaced(n).len()
                && is_ascii_upper(spaced(n)[i + 1]),
    decreases n.len(),
{
    if n.len() > 0 {
        let p = n.drop_last();
        let c = n.last();
        assert(!is_white_space(c));
        assert forall|i: int| 0 <= i < p.len() implies !is_white_space(#[trigger] p[i]) by {
            assert(p[i] == n[i]);
        }
        lemma_spaced(p);
        let a = spaced(p);
        let b = spaced_piece(c, n.len() - 1);
        let h = spaced(n);
        assert(h == a + b);
        lemma_without_concat(a, b, ' ');
        lemma_without_one(c, ' ');
        lemma_without_one(' ', ' ');
        lemma_without_two(' ', c, ' ');
        assert(without(b, ' ') =~= without(seq![c], ' '));
        assert(without(n, ' ') =~= without(p, ' ') + without(seq![c], ' '));
        if p.len() > 0 {
            assert(h[0] == a[0]);
        } else {
            assert(a =~= Seq::<char>::empty());
        }
        assert forall|i: int| 0 <= i < h.len() && #[trigger] h[i] == ' ' implies i + 1 < h.len()
            && is_ascii_upper(h[i + 1]) by {
            if i < a.len() {
                assert(h[i] == a[i]);
                assert(a[i] == ' ');
                assert(h[i + 1] == a[i + 1]);
            } else {
                assert(h[i] == b[i - a.len()]);
            }
        }
    }
}

/// Law: for a name without white space, `humanise` only inserts spaces: with
/// the spaces taken out it gives the name back; it has no white space at
/// either end; every space stands right before an ASCII capital; and there
/// is one space for each ASCII capital after the first character.
pub proof fn law_humanise_words(n: Seq<char>)
    requires
        forall|i: int| 0 <= i < n.len() ==> !is_white_space(#[trigger] n[i]),
    ensures
        without(humanise_spec(n), ' ') == n,
        trimmed(humanise_spec(n)) == humanise_spec(n),
        humanise_spec(n).len() > 0 ==> !is_white_space(humanise_spec(n)[0]) && !is_white_space(
            humanise_spec(n).last(),
        ),
        forall|i: int|
            0 <= i < humanise_spec(n).len() && #[trigger] humanise_spec(n)[i] == ' ' ==> i + 1
                < humanise_spec(n).len() && is_ascii_upper(humanise_spec(n)[i + 1]),
        humanise_spec(n).len() == n.len() + inner_capitals(n),
{
    lemma_spaced(n);
    let h = spaced(n);
    assert(trim_start(h) == h);
    assert(trim_end(h) == h);
    assert(humanise_spec(n) == h);
    assert forall|i: int| 0 <= i < n.len() implies n[i] != ' ' by {
        assert(!is_white_space(n[i]));
    }
    lemma_without_absent(n, ' ');
}

/// Whether `s` ends with `t`.
pub open spec fn ends_with(s: Seq<char>, t: Seq<char>) -> bool {
    t.len() <= s.len() && s.subrange(s.len() - t.len(), s.len() as int) == t
}

proof fn lemma_ends_with_one(l: Seq<char>, x: char)
    ensures
        ends_with(l, seq![x]) == (l.len() >= 1 && l.last() == x),
{
    if l.len() >= 1 {
        let t = l.subrange(l.len() - 1, l.len() as int);
        assert(t =~= seq![l.last()]);
        if l.last() == x {
            assert(t =~= seq![x]);
        } else {
            assert(t[0] != seq![x][0]);
        }
    }
}

proof fn lemma_ends_with_two(l: Seq<char>, x: char, y: char)
    ensures
        ends_with(l, seq![x, y]) == (l.len() >= 2 && l[l.len() - 2] == x && l.last() == y),
{
    if l.len() >= 2 {
        let t = l.subrange(l.len() - 2, l.len() as int);
        assert(t =~= seq![l[l.len() - 2], l.last()]);
        if l[l.len() - 2] == x && l.last() == y {
            assert(t =~= seq![x, y]);
        } else if l[l.len() - 2] != x {
            assert(t[0] != seq![x, y][0]);
        } else {
            assert(t[1] != seq![x, y][1]);
        }
    }
}

/// An ASCII vowel's byte: `a`, `e`, `i`, `o` or `u`.
pub open spec fn is_vowel_byte(b: u8) -> bool {
    b == 0x61 || b == 0x65 || b == 0x69 || b == 0x6f || b == 0x75
}

proof fn lemma_encode_concat(a: Seq<char>, b: Seq<char>)
    ensures
        vstd::utf8::encode_utf8(a + b) == vstd::utf8::encode_utf8(a) + vstd::utf8::encode_utf8(b),
    decreases a.len(),
{
    if a.len() == 0 {
        assert(a + b =~= b);
        assert(vstd::utf8::encode_utf8(a) =~= Seq::<u8>::empty());
        assert(vstd::utf8::encode_utf8(a) + vstd::utf8::encode_utf8(b) =~= vstd::utf8::encode_utf8(
            b,
        ));
    } else {
        lemma_encode_concat(a.drop_first(), b);
        assert((a + b).drop_first() =~= a.drop_first() + b);
        assert((a + b)[0] == a[0]);
        assert(vstd::utf8::encode_utf8(a + b) =~= vstd::utf8::encode_utf8(a)
            + vstd::utf8::encode_utf8(b));
    }
}

proof fn lemma_encode_push(a: Seq<char>, c: char)
    ensures
        vstd::utf8::encode_utf8(a.push(c)) == vstd::utf8::encode_utf8(a)
            + vstd::utf8::encode_scalar(c as u32),
{
    lemma_encode_concat(a, seq![c]);
    assert(a + seq![c] =~= a.push(c));
    assert(seq![c].drop_first() =~= Seq::<char>::empty());
    assert(vstd::utf8::encode_utf8(Seq::<char>::empty()) =~= Seq::<u8>::empty());
    assert(vstd::utf8::encode_utf8(seq![c]) =~= vstd::utf8::encode_scalar(c as u32));
}

/// The last byte of a character's UTF-8 encoding is the character itself
/// when it is ASCII, and a continuation byte (at least `0x80`) otherwise.
proof fn lemma_last_byte(c: char)
    ensures
        vstd::utf8::encode_scalar(c as u32).len() >= 1,
        (c as u32) < 0x80 ==> vstd::utf8::encode_scalar(c as u32) == seq![(c as u32) as u8],
        (c as u32) >= 0x80 ==> vstd::utf8::encode_scalar(c as u32).last() >= 0x80,
{
    let x = c as u32;
    vstd::utf8::char_is_scalar(c);
    if x < 0x80 {
        assert((x & 0x7F) as u8 == x as u8) by (bit_vector)
            requires
                x < 0x80,
        ;
        assert(vstd::utf8::encode_scalar(x) =~= seq![x as u8]);
    } else {
        assert((0x80u8 | ((x & 0x3F) as u8)) >= 0x80) by (bit_vector);
    }
}

/// Law: `plural` in the terms it decides by: on the ASCII-lowercased label
/// `l`, after `s`, `x`, `z`, `ch` or `sh` comes `es`; when `l` ends with `y`,
/// is longer than one byte and the byte before the `y` is not an ASCII
/// vowel, the `y` gives way to `ies` (that `y` is one byte, so taking the
/// last character off is taking the last byte off); otherwise `s` follows.
pub proof fn law_plural(s: Seq<char>)
    ensures
        ({
            let l = ascii_lower_str(s);
            let bytes = vstd::utf8::encode_utf8(l);
            plural_spec(s) == if ends_with(l, seq!['s']) || ends_with(l, seq!['x']) || ends_with(
                l,
                seq!['z'],
            ) || ends_with(l, seq!['c', 'h']) || ends_with(l, seq!['s', 'h']) {
                s + seq!['e', 's']
            } else if ends_with(l, seq!['y']) && bytes.len() > 1 && !is_vowel_byte(
                bytes[bytes.len() - 2],
            ) {
                s.drop_last() + seq!['i', 'e', 's']
            } else {
                s + seq!['s']
            }
        }),
        ends_with(ascii_lower_str(s), seq!['y']) ==> vstd::utf8::encode_utf8(s.drop_last())
            == vstd::utf8::encode_utf8(s).drop_last(),
{
    let l = ascii_lower_str(s);
    let n = l.len();
    let bytes = vstd::utf8::encode_utf8(l);
    lemma_ends_with_one(l, 's');
    lemma_ends_with_one(l, 'x');
    lemma_ends_with_one(l, 'z');
    lemma_ends_with_one(l, 'y');
    lemma_ends_with_two(l, 'c', 'h');
    lemma_ends_with_two(l, 's', 'h');
    if ends_with(l, seq!['y']) {
        let p = l.drop_last();
        assert(l =~= p.push('y'));
        lemma_encode_push(p, 'y');
        lemma_last_byte('y');
        assert(('y' as u32) == 0x79);
        assert(bytes =~= vstd::utf8::encode_utf8(p) + seq![0x79u8]);
        if n >= 2 {
            let q = p.drop_last();
            let c = p.last();
            assert(p =~= q.push(c));
            lemma_encode_push(q, c);
            lemma_last_byte(c);
            let e = vstd::utf8::encode_utf8(p);
            assert(bytes[bytes.len() - 2] == e.last());
            assert(e.last() == vstd::utf8::encode_scalar(c as u32).last());
            assert(c == l[n - 2]);
            if (c as u32) < 0x80 {
                assert(is_vowel_byte(e.last()) == is_vowel(c));
            } else {
                assert(!is_vowel(c));
            }
        } else {
            assert(p =~= Seq::<char>::empty());
            assert(bytes.len() == 1);
        }
        // the last character of `s` is `y` or `Y`: one byte
        let sl = s.last();
        assert(ascii_lower(sl) == 'y');
        assert(sl == 'y' || sl == 'Y');
        assert(s =~= s.drop_last().push(sl));
        lemma_encode_push(s.drop_last(), sl);
        lemma_last_byte(sl);
        assert(vstd::utf8::encode_utf8(s).drop_last() =~= vstd::utf8::encode_utf8(s.drop_last()));
    }
}

} // verus!
