//! A check on GLSL text that bounds the byte size of every type naga lays out
//! for it. naga computes type sizes (array count times stride, struct spans)
//! with `u32` arithmetic; the check admits only sources on which those sizes
//! stay far below `u32::MAX`.
//!
//! Why the bound holds on an admitted source:
//! - no `struct` keyword, no `##` pasting and no `\` line splicing, so the only
//!   struct types are interface blocks (and naga's built-in blocks), whose
//!   members are scalars, vectors, matrices or arrays of them;
//! - every `[` stands outside `#` lines and no `#` line holds `const`, so no
//!   macro expansion makes a bracket or a constant;
//! - every bracket holds either a decimal literal (at most 7 digits) or a
//!   variable: an identifier that occurs in no `const` statement and on no `#`
//!   line (so it names no constant and no macro), is not `true` or `false`,
//!   holds no `__` and does not start with `GL_` (the preprocessor's own
//!   names), with no `(`, `.` or `[`
//!   in the bracket. naga parses an array size in a constant context, where
//!   such a name is refused, so no array type comes from a variable bracket;
//!   each array dimension is therefore one literal bracket, written once;
//! - a scalar, vector or matrix takes at most 128 bytes, also as an array
//!   element or block member under std140/std430 padding, so an array takes at
//!   most 128 times the product of its own dimensions, and a block at most
//!   160 bytes per member (at most 65536 of them) plus 128 times the sum of its
//!   array members' dimension products, which is at most the product over all
//!   literal brackets of `max(value, 1)`, bounded by 4194304: under 2^31 in all.
use vstd::prelude::*;

verus! {

/// The largest product of bracket values the check admits.
pub const MAX_BRACKET_PRODUCT: u64 = 4194304;

/// The longest source the check admits.
pub const MAX_SOURCE_LEN: usize = 65536;

/// A decimal digit.
pub open spec fn is_digit(c: char) -> bool {
    '0' <= c && c <= '9'
}

/// The end of the run of decimal digits that starts at `i`.
pub open spec fn digits_end(s: Seq<char>, i: int) -> int
    decreases s.len() - i,
{
    if 0 <= i < s.len() && is_digit(s[i]) {
        digits_end(s, i + 1)
    } else {
        i
    }
}

/// The value of a run of decimal digits.
pub open spec fn digits_value(d: Seq<char>) -> nat
    decreases d.len(),
{
    if d.len() == 0 {
        0
    } else {
        digits_value(d.drop_last()) * 10 + ((d.last() as int - '0' as int) as nat)
    }
}

/// `10^n`.
pub open spec fn pow10(n: nat) -> nat
    decreases n,
{
    if n == 0 {
        1
    } else {
        10 * pow10((n - 1) as nat)
    }
}

/// The `[` at `p` is followed by one to seven decimal digits and a `]`.
pub open spec fn bracket_ok(s: Seq<char>, p: int) -> bool {
    let e = digits_end(s, p + 1);
    &&& p + 1 < e <= p + 8
    &&& e < s.len()
    &&& s[e] == ']'
}

/// The value of the digits after the `[` at `p`.
pub open spec fn bracket_value(s: Seq<char>, p: int) -> nat {
    digits_value(s.subrange(p + 1, digits_end(s, p + 1)))
}

/// What the character at `p` contributes to the product: the bracket's value
/// (at least 1) for a `[`, else 1.
pub open spec fn bracket_factor(s: Seq<char>, p: int) -> nat {
    if s[p] == '[' && bracket_ok(s, p) && bracket_value(s, p) > 0 {
        bracket_value(s, p)
    } else {
        1
    }
}

/// The product of the factors of the first `n` characters.
pub open spec fn bracket_product(s: Seq<char>, n: int) -> nat
    decreases n,
{
    if n <= 0 {
        1
    } else {
        bracket_product(s, n - 1) * bracket_factor(s, n - 1)
    }
}

/// Position `p` lies on a line after a `#`.
pub open spec fn after_hash(s: Seq<char>, p: int) -> bool {
    exists|j: int| 0 <= j < p && s[j] == '#' && forall|k: int| j < k < p ==> #[trigger] s[k] != '\n'
}

/// `w` occurs in `s` at `i`.
pub open spec fn occurs_at(s: Seq<char>, i: int, w: Seq<char>) -> bool {
    0 <= i && i + w.len() <= s.len() && s.subrange(i, i + w.len()) == w
}

/// A character of an identifier.
pub open spec fn ident_char(c: char) -> bool {
    is_digit(c) || ('a' <= c && c <= 'z') || ('A' <= c && c <= 'Z') || c == '_'
}

/// An identifier (not starting with a digit) spans `[b, e)` of `s`.
pub open spec fn token_at(s: Seq<char>, b: int, e: int) -> bool {
    &&& 0 <= b < e <= s.len()
    &&& ident_char(s[b]) && !is_digit(s[b])
    &&& forall|k: int| b <= k < e ==> ident_char(#[trigger] s[k])
    &&& b == 0 || !ident_char(s[b - 1])
    &&& e == s.len() || !ident_char(s[e])
}

/// A name that is no variable: one the preprocessor may define by itself
/// (holding `__`, or starting with `GL_`), or a boolean literal.
pub open spec fn reserved_name(t: Seq<char>) -> bool {
    ||| exists|k: int| 0 <= k < t.len() - 1 && #[trigger] t[k] == '_' && t[k + 1] == '_'
    ||| t.len() >= 3 && t[0] == 'G' && t[1] == 'L' && t[2] == '_'
    ||| t == "true"@
    ||| t == "false"@
}

/// Position `p` lies after a `const` with no `;` in between.
pub open spec fn in_const_statement(s: Seq<char>, p: int) -> bool {
    exists|j: int| 0 <= j <= p && occurs_at(s, j, "const"@) && forall|k: int| j <= k < p ==> #[trigger] s[k] != ';'
}

/// Position `p` is where a constant or a macro may be named.
pub open spec fn naming_zone(s: Seq<char>, p: int) -> bool {
    in_const_statement(s, p) || after_hash(s, p)
}

/// The identifier `t` occurs somewhere in a naming zone.
pub open spec fn constant_name(s: Seq<char>, t: Seq<char>) -> bool {
    exists|b: int| token_at(s, b, b + t.len()) && #[trigger] s.subrange(b, b + t.len()) == t && naming_zone(s, b)
}

/// The identifier at `[b, e)` names no constant and no macro.
pub open spec fn free_name_at(s: Seq<char>, b: int, e: int) -> bool {
    token_at(s, b, e) && !reserved_name(s.subrange(b, e)) && !constant_name(s, s.subrange(b, e))
}

/// A character a variable bracket may hold.
pub open spec fn plain_char(c: char) -> bool {
    c != ']' && c != '[' && c != '(' && c != '.'
}

/// The `[` at `p` is closed by a `]` with no `[`, `(` or `.` in between, and
/// what it holds names a variable (an identifier that names no constant or
/// macro): as an array size, naga refuses it as not constant.
pub open spec fn variable_bracket(s: Seq<char>, p: int) -> bool {
    exists|q: int| p < q < s.len() && s[q] == ']' && (forall|k: int| p < k < q ==> plain_char(#[trigger] s[k]))
        && exists|b: int, e: int| p < b && e <= q && #[trigger] free_name_at(s, b, e)
}

/// A bracket that names a variable is recognised whatever else it holds
/// besides `[`, `(` and `.`: spaces, operators and literals around the name
/// (as in `c[i + 1]` or `c[ i ]`) leave it a variable bracket.
pub proof fn law_variable_bracket_complete(s: Seq<char>, p: int, q: int, b: int, e: int)
    requires
        0 <= p < q < s.len(),
        s[p] == '[',
        s[q] == ']',
        forall|k: int| p < k < q ==> s[k] != ']' && s[k] != '[' && s[k] != '(' && s[k] != '.',
        p < b,
        e <= q,
        free_name_at(s, b, e),
    ensures
        variable_bracket(s, p),
{
    assert forall|k: int| p < k < q implies plain_char(#[trigger] s[k]) by {}
}

/// The source admitted by the check: see the module's documentation.
pub open spec fn sizes_bounded(s: Seq<char>) -> bool {
    &&& s.len() <= MAX_SOURCE_LEN
    &&& forall|i: int| !occurs_at(s, i, "struct"@)
    &&& forall|i: int| 0 <= i < s.len() ==> #[trigger] s[i] != '\\'
    &&& forall|i: int| 0 <= i < s.len() - 1 ==> !(#[trigger] s[i] == '#' && s[i + 1] == '#')
    &&& forall|j: int| #[trigger] occurs_at(s, j, "const"@) ==> !after_hash(s, j)
    &&& forall|p: int| 0 <= p < s.len() && #[trigger] s[p] == '[' ==> (bracket_ok(s, p) || variable_bracket(s, p)) && !after_hash(s, p)
    &&& bracket_product(s, s.len() as int) <= MAX_BRACKET_PRODUCT
}

proof fn lemma_digits_end_skip(s: Seq<char>, a: int, j: int)
    requires
        0 <= a <= j <= s.len(),
        forall|k: int| a <= k < j ==> is_digit(#[trigger] s[k]),
    ensures
        digits_end(s, a) == digits_end(s, j),
    decreases j - a,
{
    if a < j {
        lemma_digits_end_skip(s, a + 1, j);
    }
}

proof fn lemma_digits_end_ge(s: Seq<char>, j: int)
    requires
        0 <= j,
    ensures
        digits_end(s, j) >= j,
    decreases s.len() - j,
{
    if j < s.len() && is_digit(s[j]) {
        lemma_digits_end_ge(s, j + 1);
    }
}

proof fn lemma_product_grows(s: Seq<char>, m: int, n: int)
    requires
        0 <= m <= n,
    ensures
        bracket_product(s, m) <= bracket_product(s, n),
    decreases n - m,
{
    if m < n {
        lemma_product_grows(s, m, n - 1);
        let a = bracket_product(s, n - 1);
        let f = bracket_factor(s, n - 1);
        assert(a <= a * f) by (nonlinear_arith)
            requires
                f >= 1,
        ;
    }
}

/// The characters of `source`.
fn text_chars(source: &str) -> (v: Vec<char>)
    ensures
        v@ == source@,
{
    let mut v: Vec<char> = Vec::new();
    for c in it: source.chars()
        invariant
            v@ == it.seq().take(it.index() as int),
    {
        v.push(c);
    }
    v
}

/// Whether `struct` occurs in `v` at `i`.
fn struct_at(v: &Vec<char>, i: usize) -> (b: bool)
    requires
        i < v@.len(),
    ensures
        b == occurs_at(v@, i as int, "struct"@),
{
    proof {
        reveal_strlit("struct");
    }
    if v.len() - i < 6 {
        return false;
    }
    let b = v[i] == 's' && v[i + 1] == 't' && v[i + 2] == 'r' && v[i + 3] == 'u' && v[i + 4] == 'c'
        && v[i + 5] == 't';
    proof {
        let w = v@.subrange(i as int, i + 6);
        if b {
            assert(w =~= "struct"@);
        } else {
            if w == "struct"@ {
                assert(w[0] == 's' && w[1] == 't' && w[2] == 'r' && w[3] == 'u' && w[4] == 'c' && w[5] == 't');
            }
        }
    }
    b
}

/// The value of the bracket opened at `p` when it is well formed.
fn scan_bracket(v: &Vec<char>, p: usize) -> (r: Option<u64>)
    requires
        p < v@.len(),
        v@[p as int] == '[',
    ensures
        r is Some <==> bracket_ok(v@, p as int),
        r matches Some(x) ==> x == bracket_value(v@, p as int) && x < 10_000_000,
{
    let ghost s = v@;
    let n = v.len();
    let a = p + 1;
    let mut j = a;
    let mut value: u64 = 0;
    let mut cap: u64 = 1;
    while j < n && j - a < 8 && '0' <= v[j] && v[j] <= '9'
        invariant
            a == p + 1,
            n == s.len(),
            a <= j <= n,
            j - a <= 8,
            forall|k: int| a <= k < j ==> is_digit(#[trigger] s[k]),
            value == digits_value(s.subrange(a as int, j as int)),
            cap == pow10((j - a) as nat),
            value < cap,
            s == v@,
        decreases n - j,
    {
        let d = (v[j] as u32 - '0' as u32) as u64;
        proof {
            assert(s.subrange(a as int, j + 1).drop_last() =~= s.subrange(a as int, j as int));
            assert(pow10((j - a) as nat) <= 10_000_000) by {
                reveal_with_fuel(pow10, 9);
            }
            assert(pow10((j + 1 - a) as nat) == 10 * pow10((j - a) as nat));
        }
        value = value * 10 + d;
        cap = cap * 10;
        j = j + 1;
    }
    proof {
        lemma_digits_end_skip(s, a as int, j as int);
        lemma_digits_end_ge(s, j as int);
        assert(pow10(7) == 10_000_000) by {
            reveal_with_fuel(pow10, 8);
        }
    }
    if j == a || j - a > 7 || j >= n || v[j] != ']' {
        proof {
            if j - a <= 7 && j < n {
                assert(!is_digit(s[j as int]));
            }
        }
        return None;
    }
    proof {
        assert(!is_digit(s[j as int]));
        assert(digits_end(s, j as int) == j);
        if j - a < 7 {
            assert(pow10((j - a) as nat) <= pow10(7)) by {
                reveal_with_fuel(pow10, 8);
            }
        }
    }
    Some(value)
}

/// A `const` starts before `i` with no `;` from it up to `i`.
pub open spec fn const_open_before(s: Seq<char>, i: int) -> bool {
    exists|j: int| 0 <= j < i && occurs_at(s, j, "const"@) && forall|k: int| j <= k < i ==> #[trigger] s[k] != ';'
}

/// Whether `const` occurs in `v` at `i`.
fn const_at(v: &Vec<char>, i: usize) -> (b: bool)
    requires
        i < v@.len(),
    ensures
        b == occurs_at(v@, i as int, "const"@),
{
    proof {
        reveal_strlit("const");
    }
    if v.len() - i < 5 {
        return false;
    }
    let b = v[i] == 'c' && v[i + 1] == 'o' && v[i + 2] == 'n' && v[i + 3] == 's' && v[i + 4] == 't';
    proof {
        let w = v@.subrange(i as int, i + 5);
        if b {
            assert(w =~= "const"@);
        } else {
            if w == "const"@ {
                assert(w[0] == 'c' && w[1] == 'o' && w[2] == 'n' && w[3] == 's' && w[4] == 't');
            }
        }
    }
    b
}

/// For each position, whether it lies in a naming zone.
fn naming_zones(v: &Vec<char>) -> (z: Vec<bool>)
    ensures
        z@.len() == v@.len(),
        forall|p: int| 0 <= p < v@.len() ==> #[trigger] z@[p] == naming_zone(v@, p),
{
    let ghost s = v@;
    let n = v.len();
    let mut z: Vec<bool> = Vec::new();
    let mut hash = false;
    let mut open = false;
    let mut i: usize = 0;
    while i < n
        invariant
            n == s.len(),
            s == v@,
            i <= n,
            z@.len() == i,
            hash == after_hash(s, i as int),
            open == const_open_before(s, i as int),
            forall|p: int| 0 <= p < i ==> #[trigger] z@[p] == naming_zone(s, p),
        decreases n - i,
    {
        let c = v[i];
        let here = const_at(v, i);
        proof {
            if here {
                assert(forall|k: int| i <= k < i ==> #[trigger] s[k] != ';');
                assert(in_const_statement(s, i as int));
            }
            if open {
                let j = choose|j: int| 0 <= j < i && occurs_at(s, j, "const"@) && forall|k: int| j <= k < i ==> #[trigger] s[k] != ';';
                assert(in_const_statement(s, i as int));
            }
            if in_const_statement(s, i as int) {
                let j = choose|j: int| 0 <= j <= i && occurs_at(s, j, "const"@) && forall|k: int| j <= k < i ==> #[trigger] s[k] != ';';
                if j < i {
                    assert(const_open_before(s, i as int));
                }
            }
        }
        z.push(open || here || hash);
        proof {
            // after_hash at i + 1
            if c == '#' {
                assert(after_hash(s, i + 1));
            } else if c == '\n' {
                if after_hash(s, i + 1) {
                    let j = choose|j: int| 0 <= j < i + 1 && s[j] == '#' && forall|k: int| j < k < i + 1 ==> #[trigger] s[k] != '\n';
                    assert(s[i as int] != '\n');
                }
            } else {
                if after_hash(s, i + 1) {
                    let j = choose|j: int| 0 <= j < i + 1 && s[j] == '#' && forall|k: int| j < k < i + 1 ==> #[trigger] s[k] != '\n';
                    assert(j < i);
                    assert(after_hash(s, i as int));
                }
                if after_hash(s, i as int) {
                    let j = choose|j: int| 0 <= j < i && s[j] == '#' && forall|k: int| j < k < i ==> #[trigger] s[k] != '\n';
                    assert(forall|k: int| j < k < i + 1 ==> #[trigger] s[k] != '\n');
                }
            }
            // const_open_before at i + 1
            if c != ';' && (open || here) {
                if here {
                    assert(forall|k: int| i <= k < i + 1 ==> #[trigger] s[k] != ';');
                } else {
                    let j = choose|j: int| 0 <= j < i && occurs_at(s, j, "const"@) && forall|k: int| j <= k < i ==> #[trigger] s[k] != ';';
                    assert(forall|k: int| j <= k < i + 1 ==> #[trigger] s[k] != ';');
                }
                assert(const_open_before(s, i + 1));
            }
            if const_open_before(s, i + 1) {
                let j = choose|j: int| 0 <= j < i + 1 && occurs_at(s, j, "const"@) && forall|k: int| j <= k < i + 1 ==> #[trigger] s[k] != ';';
                assert(s[i as int] != ';');
                if j < i {
                    assert(const_open_before(s, i as int));
                }
            }
        }
        if c == '#' {
            hash = true;
        } else if c == '\n' {
            hash = false;
        }
        open = (open || here) && c != ';';
        i = i + 1;
    }
    z
}

fn is_ident_char(c: char) -> (b: bool)
    ensures
        b == ident_char(c),
{
    ('0' <= c && c <= '9') || ('a' <= c && c <= 'z') || ('A' <= c && c <= 'Z') || c == '_'
}

/// The end of the identifier characters from `b`.
fn ident_end(v: &Vec<char>, b: usize) -> (e: usize)
    requires
        b <= v@.len(),
    ensures
        b <= e <= v@.len(),
        forall|k: int| b <= k < e ==> ident_char(#[trigger] v@[k]),
        e == v@.len() || !ident_char(v@[e as int]),
{
    let mut e = b;
    while e < v.len() && is_ident_char(v[e])
        invariant
            b <= e <= v@.len(),
            forall|k: int| b <= k < e ==> ident_char(#[trigger] v@[k]),
        decreases v@.len() - e,
    {
        e = e + 1;
    }
    e
}

proof fn lemma_token_end_unique(s: Seq<char>, b: int, e: int, e2: int)
    requires
        token_at(s, b, e),
        b < e2 <= s.len(),
        forall|k: int| b <= k < e2 ==> ident_char(#[trigger] s[k]),
        e2 == s.len() || !ident_char(s[e2]),
    ensures
        e == e2,
{
    if e < e2 {
        assert(ident_char(s[e]));
    }
    if e2 < e {
        assert(ident_char(s[e2]));
    }
}

/// Whether the name `v[b..e)` holds `__` or starts with `GL_`.
fn is_reserved(v: &Vec<char>, b: usize, e: usize) -> (r: bool)
    requires
        b <= e <= v@.len(),
    ensures
        r == reserved_name(v@.subrange(b as int, e as int)),
{
    let ghost t = v@.subrange(b as int, e as int);
    proof {
        reveal_strlit("true");
        reveal_strlit("false");
    }
    if e - b >= 3 && v[b] == 'G' && v[b + 1] == 'L' && v[b + 2] == '_' {
        return true;
    }
    if e - b == 4 && v[b] == 't' && v[b + 1] == 'r' && v[b + 2] == 'u' && v[b + 3] == 'e' {
        assert(t =~= "true"@);
        return true;
    }
    if e - b == 5 && v[b] == 'f' && v[b + 1] == 'a' && v[b + 2] == 'l' && v[b + 3] == 's' && v[b + 4] == 'e' {
        assert(t =~= "false"@);
        return true;
    }
    proof {
        if t == "true"@ {
            assert(t[0] == 't' && t[1] == 'r' && t[2] == 'u' && t[3] == 'e');
        }
        if t == "false"@ {
            assert(t[0] == 'f' && t[1] == 'a' && t[2] == 'l' && t[3] == 's' && t[4] == 'e');
        }
    }
    let mut k = b;
    while e - k > 1
        invariant
            b <= k <= e,
            e <= v@.len(),
            t == v@.subrange(b as int, e as int),
            forall|m: int| 0 <= m < k - b && m < t.len() - 1 ==> !(#[trigger] t[m] == '_' && t[m + 1] == '_'),
        decreases e - k,
    {
        if v[k] == '_' && v[k + 1] == '_' {
            assert(t[k - b] == '_' && t[k - b + 1] == '_');
            return true;
        }
        k = k + 1;
    }
    proof {
        assert forall|m: int| 0 <= m < t.len() - 1 implies !(#[trigger] t[m] == '_' && t[m + 1] == '_') by {
            assert(m < k - b);
        }
    }
    false
}

/// Whether the name `v[b..e)` (an identifier) occurs as an identifier in a
/// naming zone.
fn is_constant_name(v: &Vec<char>, z: &Vec<bool>, b: usize, e: usize) -> (r: bool)
    requires
        token_at(v@, b as int, e as int),
        z@.len() == v@.len(),
        forall|p: int| 0 <= p < v@.len() ==> #[trigger] z@[p] == naming_zone(v@, p),
    ensures
        r == constant_name(v@, v@.subrange(b as int, e as int)),
{
    let ghost s = v@;
    let ghost t = s.subrange(b as int, e as int);
    let n = v.len();
    let len = e - b;
    let mut p: usize = 0;
    while p <= n - len
        invariant
            n == s.len(),
            len <= n,
            b + len == e,
            e <= n,
            s == v@,
            len == t.len(),
            1 <= len,
            t == s.subrange(b as int, e as int),
            token_at(s, b as int, e as int),
            z@.len() == n,
            forall|q: int| 0 <= q < n ==> #[trigger] z@[q] == naming_zone(s, q),
            forall|q: int| 0 <= q < p ==> !(token_at(s, q, q + len) && #[trigger] s.subrange(q, q + len) == t && naming_zone(s, q)),
        decreases n - p,
    {
        let mut same = true;
        let mut k: usize = 0;
        while k < len
            invariant
                p + len <= n,
                b + len == e,
                e <= n,
                n == s.len(),
                s == v@,
                len == t.len(),
                t == s.subrange(b as int, e as int),
                k <= len,
                same == (forall|m: int| 0 <= m < k ==> #[trigger] s[p + m] == t[m]),
            decreases len - k,
        {
            if v[p + k] != v[b + k] {
                same = false;
            }
            proof {
                assert(t[k as int] == s[b + k]);
            }
            k = k + 1;
        }
        let left_ok = p == 0 || !is_ident_char(v[p - 1]);
        let right_ok = p + len == n || !is_ident_char(v[p + len]);
        proof {
            if same {
                assert forall|m: int| 0 <= m < len implies #[trigger] s.subrange(p as int, p + len)[m] == t[m] by {
                    assert(s[p + m] == t[m]);
                }
                assert(s.subrange(p as int, p + len) =~= t);
            } else {
                if s.subrange(p as int, p + len) == t {
                    assert forall|m: int| 0 <= m < len implies #[trigger] s[p + m] == t[m] by {
                        assert(s.subrange(p as int, p + len)[m] == s[p + m]);
                    }
                }
            }
            if same && left_ok && right_ok {
                assert forall|m: int| p <= m < p + len implies ident_char(#[trigger] s[m]) by {
                    assert(s[m] == t[m - p]);
                    assert(t[m - p] == s[b + (m - p)]);
                }
                assert(s[p as int] == t[0]);
                assert(token_at(s, p as int, p + len));
            }
        }
        if same && left_ok && right_ok && z[p] {
            return true;
        }
        p = p + 1;
    }
    proof {
        assert forall|q: int| token_at(s, q, q + t.len()) && #[trigger] s.subrange(q, q + t.len()) == t implies !naming_zone(s, q) by {
            assert(q < p);
        }
    }
    false
}

/// Whether the `[` at `p` is a variable bracket.
fn check_variable_bracket(v: &Vec<char>, z: &Vec<bool>, p: usize) -> (r: bool)
    requires
        p < v@.len(),
        v@[p as int] == '[',
        z@.len() == v@.len(),
        forall|q: int| 0 <= q < v@.len() ==> #[trigger] z@[q] == naming_zone(v@, q),
    ensures
        r == variable_bracket(v@, p as int),
{
    let ghost s = v@;
    let n = v.len();
    let mut q = p + 1;
    while q < n && v[q] != ']' && v[q] != '[' && v[q] != '(' && v[q] != '.'
        invariant
            p < q <= n,
            n == s.len(),
            s == v@,
            forall|k: int| p < k < q ==> plain_char(#[trigger] s[k]),
        decreases n - q,
    {
        q = q + 1;
    }
    if q == n || v[q] != ']' {
        proof {
            if variable_bracket(s, p as int) {
                let q2 = choose|q2: int| p < q2 < s.len() && s[q2] == ']' && (forall|k: int| p < k < q2 ==> plain_char(#[trigger] s[k]))
                    && exists|b: int, e: int| p < b && e <= q2 && #[trigger] free_name_at(s, b, e);
                if q2 < q {
                    assert(plain_char(s[q2]));
                } else if q2 > q {
                    assert(plain_char(s[q as int]));
                }
            }
        }
        return false;
    }
    let mut b = p + 1;
    while b < q
        invariant
            p < b <= q,
            q < n,
            n == s.len(),
            s == v@,
            s[q as int] == ']',
            forall|k: int| p < k < q ==> plain_char(#[trigger] s[k]),
            z@.len() == n,
            forall|x: int| 0 <= x < n ==> #[trigger] z@[x] == naming_zone(s, x),
            forall|b2: int, e2: int| p < b2 < b && e2 <= q ==> !#[trigger] free_name_at(s, b2, e2),
        decreases q - b,
    {
        let c = v[b];
        if is_ident_char(c) && !('0' <= c && c <= '9') && !is_ident_char(v[b - 1]) {
            let e = ident_end(v, b);
            proof {
                assert(e <= q) by {
                    if e > q {
                        assert(ident_char(s[q as int]));
                    }
                }
                assert(token_at(s, b as int, e as int));
            }
            if !is_reserved(v, b, e) && !is_constant_name(v, z, b, e) {
                proof {
                    assert(free_name_at(s, b as int, e as int));
                }
                return true;
            }
            proof {
                assert forall|e2: int| e2 <= q implies !#[trigger] free_name_at(s, b as int, e2) by {
                    if free_name_at(s, b as int, e2) {
                        lemma_token_end_unique(s, b as int, e2, e as int);
                    }
                }
            }
        }
        b = b + 1;
    }
    false
}

/// Whether the source is admitted (see `sizes_bounded`): then every type naga
/// lays out for it stays far below `u32::MAX` bytes.
pub fn sizes_are_bounded(source: &str) -> (b: bool)
    ensures
        b == sizes_bounded(source@),
{
    let v = text_chars(source);
    let ghost s = v@;
    let n = v.len();
    if n > MAX_SOURCE_LEN {
        return false;
    }
    let z = naming_zones(&v);
    let mut i: usize = 0;
    let mut in_hash = false;
    let mut prod: u64 = 1;
    while i < n
        invariant
            n == s.len(),
            s == v@,
            s == source@,
            n <= MAX_SOURCE_LEN,
            i <= n,
            in_hash == after_hash(s, i as int),
            prod == bracket_product(s, i as int),
            prod <= MAX_BRACKET_PRODUCT,
            forall|k: int| 0 <= k < i ==> !occurs_at(s, k, "struct"@),
            forall|k: int| 0 <= k < i ==> #[trigger] s[k] != '\\',
            forall|k: int| 0 <= k < i && k < s.len() - 1 ==> !(#[trigger] s[k] == '#' && s[k + 1] == '#'),
            forall|k: int| 0 <= k < i && #[trigger] s[k] == '[' ==> (bracket_ok(s, k) || variable_bracket(s, k)) && !after_hash(s, k),
            forall|k: int| 0 <= k < i && #[trigger] occurs_at(s, k, "const"@) ==> !after_hash(s, k),
            z@.len() == n,
            forall|q: int| 0 <= q < n ==> #[trigger] z@[q] == naming_zone(s, q),
        decreases n - i,
    {
        let c = v[i];
        if in_hash && const_at(&v, i) {
            return false;
        }
        if c == '\\' || struct_at(&v, i) || (c == '#' && i + 1 < n && v[i + 1] == '#') {
            proof {
                if c == '\\' {
                    assert(s[i as int] == '\\');
                } else if c == '#' && i + 1 < n && v[i + 1] == '#' {
                    assert(s[i as int] == '#' && s[i + 1] == '#');
                }
            }
            return false;
        }
        let mut f: u64 = 1;
        if c == '[' {
            if in_hash {
                assert(s[i as int] == '[');
                return false;
            }
            match scan_bracket(&v, i) {
                None => {
                    if !check_variable_bracket(&v, &z, i) {
                        assert(s[i as int] == '[');
                        return false;
                    }
                },
                Some(x) => {
                    if x > 0 {
                        f = x;
                    }
                },
            }
        }
        assert(f == bracket_factor(s, i as int));
        assert(prod * f <= MAX_BRACKET_PRODUCT * 10_000_000) by (nonlinear_arith)
            requires
                prod <= MAX_BRACKET_PRODUCT,
                f <= 10_000_000,
        ;
        if prod * f > MAX_BRACKET_PRODUCT {
            proof {
                lemma_product_grows(s, i + 1, n as int);
            }
            return false;
        }
        prod = prod * f;
        proof {
            if c == '#' {
                assert(after_hash(s, i + 1));
            } else if c == '\n' {
                if after_hash(s, i + 1) {
                    let j = choose|j: int| 0 <= j < i + 1 && s[j] == '#' && forall|k: int| j < k < i + 1 ==> #[trigger] s[k] != '\n';
                    assert(s[i as int] != '\n');
                }
            } else {
                if after_hash(s, i + 1) {
                    let j = choose|j: int| 0 <= j < i + 1 && s[j] == '#' && forall|k: int| j < k < i + 1 ==> #[trigger] s[k] != '\n';
                    assert(j < i);
                    assert(after_hash(s, i as int));
                }
                if after_hash(s, i as int) {
                    let j = choose|j: int| 0 <= j < i && s[j] == '#' && forall|k: int| j < k < i ==> #[trigger] s[k] != '\n';
                    assert(forall|k: int| j < k < i + 1 ==> #[trigger] s[k] != '\n');
                }
            }
        }
        if c == '#' {
            in_hash = true;
        } else if c == '\n' {
            in_hash = false;
        }
        i = i + 1;
    }
    proof {
        assert forall|k: int| #[trigger] occurs_at(s, k, "const"@) implies !after_hash(s, k) by {
            reveal_strlit("const");
            assert(k < i);
        }
        assert forall|k: int| !occurs_at(s, k, "struct"@) by {
            reveal_strlit("struct");
            if 0 <= k && k + 6 <= s.len() {
                assert(k < i);
            }
        }
    }
    true
}

} // verus!
