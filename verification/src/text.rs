//! Working on text character by character.

use vstd::prelude::*;
use vstd::string::*;

verus! {

/// `pattern` stands in `text` at position `at`.
pub open spec fn occurs_at(text: Seq<char>, pattern: Seq<char>, at: int) -> bool {
    &&& 0 <= at
    &&& at + pattern.len() <= text.len()
    &&& text.subrange(at, at + pattern.len()) == pattern
}

/// `pattern` stands somewhere in `text`.
pub open spec fn spec_contains(text: Seq<char>, pattern: Seq<char>) -> bool {
    exists|at: int| occurs_at(text, pattern, at)
}

/// The characters of a text, in order.
pub fn chars_of(text: &str) -> (r: Vec<char>)
    ensures
        r@ == text@,
{
    let mut out: Vec<char> = Vec::new();
    for c in it: text.chars()
        invariant
            it.seq() == text@,
            out@ == text@.take(it.index() as int),
    {
        out.push(c);
        assert(text@.take(it.index() + 1) =~= text@.take(it.index() as int).push(c));
    }
    assert(text@.take(text@.len() as int) =~= text@);
    out
}

/// Whether two texts hold the same characters.
pub fn same_text(a: &str, b: &str) -> (r: bool)
    ensures
        r == (a@ == b@),
{
    let left = String::from_str(a);
    let right = String::from_str(b);
    left == right
}

/// Whether `pattern` stands in `text` at position `at`.
pub(crate) fn matches_at(text: &Vec<char>, pattern: &Vec<char>, at: usize) -> (r: bool)
    requires
        at + pattern@.len() <= text@.len(),
    ensures
        r == occurs_at(text@, pattern@, at as int),
{
    let n: usize = text.len();
    let m: usize = pattern.len();
    let mut k: usize = 0;
    while k < m
        invariant
            n == text@.len(),
            m == pattern@.len(),
            k <= m,
            at + m <= n,
            forall|j: int| 0 <= j < k ==> text@[at + j] == pattern@[j],
        decreases pattern@.len() - k,
    {
        if text[at + k] != pattern[k] {
            assert(text@.subrange(at as int, at + pattern@.len())[k as int] == text@[at + k]);
            return false;
        }
        k += 1;
    }
    assert(text@.subrange(at as int, at + pattern@.len()) =~= pattern@);
    true
}

/// Whether `text` begins with `pattern`.
pub fn starts_with(text: &str, pattern: &str) -> (r: bool)
    ensures
        r == pattern@.is_prefix_of(text@),
{
    let t = chars_of(text);
    let p = chars_of(pattern);
    if p.len() > t.len() {
        return false;
    }
    let hit = matches_at(&t, &p, 0);
    assert(occurs_at(t@, p@, 0) == p@.is_prefix_of(t@)) by {
        if p@.is_prefix_of(t@) {
            assert(t@.subrange(0, p@.len() as int) =~= p@);
        }
    }
    hit
}

/// Whether `pattern` stands somewhere in `text`.
pub fn contains(text: &str, pattern: &str) -> (r: bool)
    ensures
        r == spec_contains(text@, pattern@),
{
    let t = chars_of(text);
    let p = chars_of(pattern);
    if p.len() > t.len() {
        return false;
    }
    if p.len() == 0 {
        assert(t@.subrange(0, 0) =~= p@);
        assert(occurs_at(t@, p@, 0));
        return true;
    }
    let n: usize = t.len();
    let last: usize = n - p.len();
    let mut at: usize = 0;
    while at <= last
        invariant
            n == t@.len(),
            t@ == text@,
            p@ == pattern@,
            0 < p@.len() <= t@.len(),
            last == t@.len() - p@.len(),
            at <= last + 1,
            forall|j: int| 0 <= j < at ==> !occurs_at(t@, p@, j),
        decreases last + 1 - at,
    {
        if matches_at(&t, &p, at) {
            return true;
        }
        at += 1;
    }
    false
}

/// The character of a decimal digit.
pub open spec fn digit_char(d: nat) -> char {
    if d == 0 {
        '0'
    } else if d == 1 {
        '1'
    } else if d == 2 {
        '2'
    } else if d == 3 {
        '3'
    } else if d == 4 {
        '4'
    } else if d == 5 {
        '5'
    } else if d == 6 {
        '6'
    } else if d == 7 {
        '7'
    } else if d == 8 {
        '8'
    } else {
        '9'
    }
}

/// A number written in decimal digits, without leading zeros.
pub open spec fn spec_decimal(n: nat) -> Seq<char>
    decreases n,
{
    if n < 10 {
        seq![digit_char(n)]
    } else {
        spec_decimal(n / 10).push(digit_char(n % 10))
    }
}

fn digit_text(d: u64) -> (r: &'static str)
    requires
        d < 10,
    ensures
        r@ == seq![digit_char(d as nat)],
{
    proof {
        reveal_strlit("0");
        reveal_strlit("1");
        reveal_strlit("2");
        reveal_strlit("3");
        reveal_strlit("4");
        reveal_strlit("5");
        reveal_strlit("6");
        reveal_strlit("7");
        reveal_strlit("8");
        reveal_strlit("9");
    }
    let r = if d == 0 {
        "0"
    } else if d == 1 {
        "1"
    } else if d == 2 {
        "2"
    } else if d == 3 {
        "3"
    } else if d == 4 {
        "4"
    } else if d == 5 {
        "5"
    } else if d == 6 {
        "6"
    } else if d == 7 {
        "7"
    } else if d == 8 {
        "8"
    } else {
        "9"
    };
    assert(r@ =~= seq![digit_char(d as nat)]);
    r
}

/// Writes a number in decimal digits.
pub fn decimal(n: u64) -> (r: String)
    ensures
        r@ == spec_decimal(n as nat),
    decreases n,
{
    if n < 10 {
        String::from_str(digit_text(n))
    } else {
        let front = decimal(n / 10);
        let r = front.concat(digit_text(n % 10));
        assert(r@ =~= spec_decimal((n / 10) as nat).push(digit_char((n % 10) as nat)));
        r
    }
}

/// A number with its sign written in decimal digits.
pub open spec fn spec_signed_decimal(n: int) -> Seq<char> {
    if n < 0 {
        "-"@ + spec_decimal((-n) as nat)
    } else {
        spec_decimal(n as nat)
    }
}

/// Writes a number with its sign in decimal digits.
pub fn signed_decimal(n: i32) -> (r: String)
    ensures
        r@ == spec_signed_decimal(n as int),
{
    if n < 0 {
        let size: u64 = (-(n as i64)) as u64;
        String::from_str("-").concat(decimal(size).as_str())
    } else {
        decimal(n as u64)
    }
}

/// The characters that end or break a script text when they stand in it
/// bare: the backslash, the backtick, the dollar sign and the slash.
pub open spec fn is_script_special(c: char) -> bool {
    c == '\\' || c == '`' || c == '$' || c == '/'
}

/// The text as it stands inside a script text: with a backslash in front of
/// every character that would end or break it.
pub open spec fn spec_escaped(text: Seq<char>) -> Seq<char>
    decreases text.len(),
{
    if text.len() == 0 {
        Seq::empty()
    } else if is_script_special(text.last()) {
        spec_escaped(text.drop_last()).push('\\').push(text.last())
    } else {
        spec_escaped(text.drop_last()).push(text.last())
    }
}

/// Makes a text fit to stand inside a script text.
pub fn escaped(text: &str) -> (r: String)
    ensures
        r@ == spec_escaped(text@),
{
    let cs = chars_of(text);
    let n: usize = cs.len();
    let mut out = String::new();
    let mut i: usize = 0;
    assert(text@.take(0) =~= Seq::<char>::empty());
    while i < n
        invariant
            n == cs@.len(),
            cs@ == text@,
            i <= n,
            out@ == spec_escaped(text@.take(i as int)),
        decreases n - i,
    {
        let c = cs[i];
        proof {
            reveal_strlit("\\");
            assert(text@.take(i + 1).drop_last() =~= text@.take(i as int));
            assert(text@.take(i + 1).last() == c);
            assert(text@.subrange(i as int, i + 1) =~= seq![c]);
        }
        let ghost before = out@;
        if c == '\\' || c == '`' || c == '$' || c == '/' {
            out.append("\\");
            assert(out@ =~= before.push('\\'));
        }
        let ghost middle = out@;
        out.append(text.substring_char(i, i + 1));
        assert(out@ =~= middle.push(c));
        i += 1;
    }
    assert(text@.take(n as int) =~= text@);
    out
}

} // verus!
