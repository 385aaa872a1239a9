//! Verified text building blocks: decimal formatting of integers,
//! POSIX-style path joining, and list joining.

use vstd::prelude::*;
use itertools::Itertools;

verus! {

/// Decide whether two texts are equal.
pub fn str_eq(a: &str, b: &str) -> (r: bool)
    ensures
        r == (a@ == b@),
{
    let n = a.unicode_len();
    let m = b.unicode_len();
    if n != m {
        return false;
    }
    let mut i: usize = 0;
    while i < n
        invariant
            0 <= i <= n,
            n == a@.len(),
            n == b@.len(),
            forall|j: int| 0 <= j < i ==> a@[j] == b@[j],
        decreases n - i,
    {
        if a.get_char(i) != b.get_char(i) {
            return false;
        }
        i += 1;
    }
    proof {
        assert(a@ =~= b@);
    }
    true
}

/// The elements joined with a separator between neighbours.
pub open spec fn sep_joined(elems: Seq<Seq<char>>, sep: Seq<char>) -> Seq<char>
    decreases elems.len(),
{
    if elems.len() == 0 {
        seq![]
    } else if elems.len() == 1 {
        elems[0]
    } else {
        sep_joined(elems.drop_last(), sep) + sep + elems.last()
    }
}

/// Relies on itertools's `join`: the elements combined into one text with the
/// separator between neighbours (for `String` elements, each is written
/// verbatim).
#[verifier::external_body]
pub fn join_semicolon(parts: &Vec<String>) -> (r: String)
    ensures
        r@ == sep_joined(texts(parts@), ";"@),
{
    parts.iter().join(";")
}

/// The character for one decimal digit value.
pub open spec fn digit_char(d: int) -> char {
    if d == 0 {
        '0'
    } else if d == 1 {
        '1'
    } else if d == 2 {
        '2'
    } else if d == 3 {
        '3'
    } else if d == 4 {
        '4'
    } else if d == 5 {
        '5'
    } else if d == 6 {
        '6'
    } else if d == 7 {
        '7'
    } else if d == 8 {
        '8'
    } else {
        '9'
    }
}

/// The decimal representation of a number, without sign or leading zeros.
pub open spec fn dec_chars(n: nat) -> Seq<char>
    decreases n,
{
    if n < 10 {
        seq![digit_char(n as int)]
    } else {
        dec_chars(n / 10) + seq![digit_char((n % 10) as int)]
    }
}

fn digit_str(d: u64) -> (r: &'static str)
    requires
        d < 10,
    ensures
        r@ == seq![digit_char(d as int)],
{
    proof {
        reveal_strlit("0");
        reveal_strlit("1");
        reveal_strlit("2");
        reveal_strlit("3");
        reveal_strlit("4");
        reveal_strlit("5");
        reveal_strlit("6");
        reveal_strlit("7");
        reveal_strlit("8");
        reveal_strlit("9");
    }
    let r = match d {
        0 => "0",
        1 => "1",
        2 => "2",
        3 => "3",
        4 => "4",
        5 => "5",
        6 => "6",
        7 => "7",
        8 => "8",
        _ => "9",
    };
    proof {
        assert(r@ =~= seq![digit_char(d as int)]);
    }
    r
}

/// Format a number in decimal, exactly as its mathematical representation.
pub fn u64_to_string(n: u64) -> (s: String)
    ensures
        s@ == dec_chars(n as nat),
    decreases n,
{
    if n < 10 {
        digit_str(n).to_owned()
    } else {
        let mut s = u64_to_string(n / 10);
        s.append(digit_str(n % 10));
        s
    }
}

/// The views of a sequence of strings, for contracts over argument lists.
pub open spec fn texts(v: Seq<String>) -> Seq<Seq<char>> {
    Seq::new(v.len(), |i: int| v[i]@)
}

/// Case-insensitive ASCII equality of one character against a character of a
/// lower-case pattern.
pub open spec fn lower_eq_char(c: char, p: char) -> bool {
    c == p || ('A' <= c <= 'Z' && c as int + 32 == p as int)
}

/// A text equals a lower-case pattern up to ASCII case folding.
pub open spec fn lower_eq(s: Seq<char>, p: Seq<char>) -> bool {
    s.len() == p.len() && (forall|i: int| 0 <= i < s.len() ==> lower_eq_char(s[i], #[trigger] p[i]))
}

/// Decide `lower_eq(s@, p@)` for a lower-case pattern `p`.
pub fn lower_matches(s: &str, p: &str) -> (r: bool)
    ensures
        r == lower_eq(s@, p@),
{
    let n = s.unicode_len();
    let m = p.unicode_len();
    if n != m {
        return false;
    }
    let mut i: usize = 0;
    while i < n
        invariant
            0 <= i <= n,
            n == s@.len(),
            n == p@.len(),
            forall|j: int| 0 <= j < i ==> lower_eq_char(s@[j], #[trigger] p@[j]),
        decreases n - i,
    {
        let c = s.get_char(i);
        let pc = p.get_char(i);
        let ok = c == pc || ('A' <= c && c <= 'Z' && (c as u32) + 32 == (pc as u32));
        if !ok {
            return false;
        }
        i += 1;
    }
    true
}

/// Lexicographic order on texts, by character.
pub open spec fn chars_le(a: Seq<char>, b: Seq<char>) -> bool
    decreases a.len(),
{
    if a.len() == 0 {
        true
    } else if b.len() == 0 {
        false
    } else if a[0] == b[0] {
        chars_le(a.skip(1), b.skip(1))
    } else {
        a[0] < b[0]
    }
}

/// Texts that agree on a prefix compare as their remainders do.
pub proof fn lemma_chars_le_skip(a: Seq<char>, b: Seq<char>, i: int)
    requires
        0 <= i <= a.len(),
        i <= b.len(),
        forall|j: int| 0 <= j < i ==> a[j] == b[j],
    ensures
        chars_le(a, b) == chars_le(a.skip(i), b.skip(i)),
    decreases i,
{
    if i > 0 {
        lemma_chars_le_skip(a.skip(1), b.skip(1), i - 1);
        assert(a.skip(1).skip(i - 1) =~= a.skip(i));
        assert(b.skip(1).skip(i - 1) =~= b.skip(i));
    } else {
        assert(a.skip(0) =~= a);
        assert(b.skip(0) =~= b);
    }
}

/// The order is reflexive.
pub proof fn lemma_chars_le_refl(a: Seq<char>)
    ensures
        chars_le(a, a),
    decreases a.len(),
{
    if a.len() != 0 {
        lemma_chars_le_refl(a.skip(1));
    }
}

/// The order is total.
pub proof fn lemma_chars_le_total(a: Seq<char>, b: Seq<char>)
    ensures
        chars_le(a, b) || chars_le(b, a),
    decreases a.len(),
{
    if a.len() != 0 && b.len() != 0 && a[0] == b[0] {
        lemma_chars_le_total(a.skip(1), b.skip(1));
    }
}

/// The order is transitive.
pub proof fn lemma_chars_le_trans(a: Seq<char>, b: Seq<char>, c: Seq<char>)
    requires
        chars_le(a, b),
        chars_le(b, c),
    ensures
        chars_le(a, c),
    decreases a.len(),
{
    if a.len() != 0 && b.len() != 0 && c.len() != 0 && a[0] == b[0] && b[0] == c[0] {
        lemma_chars_le_trans(a.skip(1), b.skip(1), c.skip(1));
    }
}

/// Decide the lexicographic order of two texts.
pub fn str_le(a: &str, b: &str) -> (r: bool)
    ensures
        r == chars_le(a@, b@),
{
    let n = a.unicode_len();
    let m = b.unicode_len();
    let mut i: usize = 0;
    while i < n && i < m
        invariant
            0 <= i <= n,
            0 <= i <= m,
            n == a@.len(),
            m == b@.len(),
            forall|j: int| 0 <= j < i ==> a@[j] == b@[j],
        decreases n - i,
    {
        let ca = a.get_char(i);
        let cb = b.get_char(i);
        if ca != cb {
            proof {
                lemma_chars_le_skip(a@, b@, i as int);
                assert(a@.skip(i as int)[0] == ca);
                assert(b@.skip(i as int)[0] == cb);
            }
            return ca < cb;
        }
        i += 1;
    }
    proof {
        lemma_chars_le_skip(a@, b@, i as int);
        assert(a@.skip(i as int).len() == 0 || b@.skip(i as int).len() == 0);
    }
    n <= m
}

/// The text after the last path separator: the whole text when it holds no
/// separator, empty when it ends with one.
pub open spec fn after_last_slash(p: Seq<char>) -> Seq<char>
    decreases p.len(),
{
    if p.len() == 0 {
        seq![]
    } else if p.last() == '/' {
        seq![]
    } else {
        after_last_slash(p.drop_last()).push(p.last())
    }
}

/// Below the last separator, the text is its own tail.
pub proof fn lemma_after_last_slash(p: Seq<char>, cut: int)
    requires
        0 <= cut <= p.len(),
        cut == 0 || p[cut - 1] == '/',
        forall|j: int| cut <= j < p.len() ==> p[j] != '/',
    ensures
        after_last_slash(p) =~= p.subrange(cut, p.len() as int),
    decreases p.len(),
{
    if p.len() == 0 {
    } else if cut == p.len() {
        assert(p.last() == '/');
    } else {
        assert(p.last() != '/');
        lemma_after_last_slash(p.drop_last(), cut);
        assert(after_last_slash(p) =~= p.drop_last().subrange(
            cut,
            p.len() - 1 as int,
        ).push(p.last()));
    }
}

/// A path below a base directory, written POSIX style.
pub open spec fn joined_path(base: Seq<char>, child: Seq<char>) -> Seq<char> {
    base + seq!['/'] + child
}

/// Join one path component onto a base path with a separator.
pub fn path_join(base: &str, child: &str) -> (r: String)
    ensures
        r@ == joined_path(base@, child@),
{
    proof {
        reveal_strlit("/");
        assert("/"@ =~= seq!['/']);
    }
    let mut s = base.to_owned();
    s.append("/");
    s.append(child);
    s
}

/// Concatenate two pieces of text.
pub fn concat2(a: &str, b: &str) -> (r: String)
    ensures
        r@ == a@ + b@,
{
    let mut s = a.to_owned();
    s.append(b);
    s
}

} // verus!
