//! Small text routines on `String` and `&str`, stated over `Seq<char>`.

use vstd::prelude::*;

verus! {

/// `pat` occurs in `text` starting at position `i`.
pub open spec fn occurs_at(text: Seq<char>, pat: Seq<char>, i: int) -> bool {
    &&& 0 <= i
    &&& i + pat.len() <= text.len()
    &&& text.subrange(i, i + pat.len()) == pat
}

/// `pat` occurs somewhere in `text`.
pub open spec fn contains_seq(text: Seq<char>, pat: Seq<char>) -> bool {
    exists|i: int| #[trigger] occurs_at(text, pat, i)
}

/// The character that stands for the digit `d`.
pub open spec fn digit_char(d: nat) -> char {
    if d == 0 {
        '0'
    } else if d == 1 {
        '1'
    } else if d == 2 {
        '2'
    } else if d == 3 {
        '3'
    } else if d == 4 {
        '4'
    } else if d == 5 {
        '5'
    } else if d == 6 {
        '6'
    } else if d == 7 {
        '7'
    } else if d == 8 {
        '8'
    } else {
        '9'
    }
}

/// The decimal numeral of `n`, without leading zeros.
pub open spec fn decimal(n: nat) -> Seq<char>
    decreases n,
{
    if n < 10 {
        seq![digit_char(n)]
    } else {
        decimal(n / 10).push(digit_char(n % 10))
    }
}

/// The characters of a string, as a vector.
pub fn str_chars(s: &str) -> (v: Vec<char>)
    ensures
        v@ == s@,
{
    let n: usize = s.unicode_len();
    let mut v: Vec<char> = Vec::new();
    let mut i: usize = 0;
    while i < n
        invariant
            n == s@.len(),
            i <= n,
            v@ == s@.subrange(0, i as int),
        decreases n - i,
    {
        v.push(s.get_char(i));
        assert(v@ =~= s@.subrange(0, i + 1));
        i += 1;
    }
    assert(v@ =~= s@);
    v
}

fn occurs_here(text: &Vec<char>, pat: &Vec<char>, i: usize) -> (r: bool)
    requires
        i + pat.len() <= text.len(),
    ensures
        r == occurs_at(text@, pat@, i as int),
{
    let mut j: usize = 0;
    while j < pat.len()
        invariant
            i + pat.len() <= text.len(),
            j <= pat.len(),
            forall|k: int| 0 <= k < j ==> text@[i + k] == pat@[k],
        decreases pat.len() - j,
    {
        if text[i + j] != pat[j] {
            assert(text@.subrange(i as int, i + pat@.len())[j as int] == text@[i + j]);
            return false;
        }
        j += 1;
    }
    assert(text@.subrange(i as int, i + pat@.len()) =~= pat@);
    true
}

/// Whether `pat` occurs in `text`.
pub fn str_contains(text: &str, pat: &str) -> (r: bool)
    ensures
        r == contains_seq(text@, pat@),
{
    let t: Vec<char> = str_chars(text);
    let p: Vec<char> = str_chars(pat);
    if p.len() > t.len() {
        return false;
    }
    if p.len() == 0 {
        assert(text@.subrange(0, 0) =~= pat@);
        assert(occurs_at(text@, pat@, 0));
        return true;
    }
    let last: usize = t.len() - p.len();
    let mut i: usize = 0;
    while i <= last
        invariant
            t@ == text@,
            p@ == pat@,
            last == t.len() - p.len(),
            p.len() > 0,
            i <= last + 1,
            forall|k: int| 0 <= k < i ==> !occurs_at(text@, pat@, k),
        decreases last + 1 - i,
    {
        if occurs_here(&t, &p, i) {
            return true;
        }
        i += 1;
    }
    false
}

/// Decides whether two strings hold the same characters.
pub fn str_eq(a: &str, b: &str) -> (r: bool)
    ensures
        r == (a@ == b@),
{
    let n: usize = a.unicode_len();
    if b.unicode_len() != n {
        return false;
    }
    let mut i: usize = 0;
    while i < n
        invariant
            n == a@.len(),
            n == b@.len(),
            i <= n,
            forall|k: int| 0 <= k < i ==> a@[k] == b@[k],
        decreases n - i,
    {
        if a.get_char(i) != b.get_char(i) {
            return false;
        }
        i += 1;
    }
    assert(a@ =~= b@);
    true
}

/// Whether a forwarded address keeps the character: everything stays but
/// backslashes, double quotes and blanks.
pub open spec fn is_address_char(c: char) -> bool {
    c != '\\' && c != '"' && c != ' '
}

/// `s` without its backslashes, double quotes and blanks.
pub open spec fn bare_address(s: Seq<char>) -> Seq<char> {
    s.filter(|c: char| is_address_char(c))
}

/// Removes every backslash, double quote and blank from `s`.
pub fn strip_address(s: &str) -> (r: String)
    ensures
        r@ == bare_address(s@),
{
    let n: usize = s.unicode_len();
    let mut r: String = String::new();
    let mut i: usize = 0;
    let ghost keep = |c: char| is_address_char(c);
    proof {
        assert(s@.subrange(0, 0) =~= Seq::<char>::empty());
    }
    while i < n
        invariant
            n == s@.len(),
            i <= n,
            keep == (|c: char| is_address_char(c)),
            r@ == s@.subrange(0, i as int).filter(keep),
        decreases n - i,
    {
        let c: char = s.get_char(i);
        proof {
            let next = s@.subrange(0, i + 1);
            assert(next.drop_last() =~= s@.subrange(0, i as int));
            assert(next.last() == c);
            reveal(Seq::filter);
        }
        if c != '\\' && c != '"' && c != ' ' {
            let piece: &str = s.substring_char(i, i + 1);
            assert(piece@ =~= seq![c]);
            r.append(piece);
        }
        i += 1;
    }
    assert(s@.subrange(0, n as int) =~= s@);
    r
}

fn digit_str(d: u64) -> (r: &'static str)
    requires
        d < 10,
    ensures
        r@ == seq![digit_char(d as nat)],
{
    proof {
        reveal_strlit("0");
        reveal_strlit("1");
        reveal_strlit("2");
        reveal_strlit("3");
        reveal_strlit("4");
        reveal_strlit("5");
        reveal_strlit("6");
        reveal_strlit("7");
        reveal_strlit("8");
        reveal_strlit("9");
    }
    let r: &'static str = if d == 0 {
        "0"
    } else if d == 1 {
        "1"
    } else if d == 2 {
        "2"
    } else if d == 3 {
        "3"
    } else if d == 4 {
        "4"
    } else if d == 5 {
        "5"
    } else if d == 6 {
        "6"
    } else if d == 7 {
        "7"
    } else if d == 8 {
        "8"
    } else {
        "9"
    };
    assert(r@ =~= seq![digit_char(d as nat)]);
    r
}

/// The decimal numeral of `n`.
pub fn u64_to_string(n: u64) -> (s: String)
    ensures
        s@ == decimal(n as nat),
    decreases n,
{
    if n < 10 {
        String::from_str(digit_str(n))
    } else {
        let mut s: String = u64_to_string(n / 10);
        s.append(digit_str(n % 10));
        s
    }
}

/// The views of a list of strings.
pub open spec fn texts(v: Seq<String>) -> Seq<Seq<char>> {
    v.map_values(|s: String| s@)
}

/// The views of a list of optional strings.
pub open spec fn opt_texts(v: Seq<Option<String>>) -> Seq<Option<Seq<char>>> {
    v.map_values(|s: Option<String>| opt_text(s))
}

/// The view of an optional string.
pub open spec fn opt_text(s: Option<String>) -> Option<Seq<char>> {
    match s {
        Some(s) => Some(s@),
        None => None,
    }
}

/// `a` followed by `b`.
pub fn concat2(a: &str, b: &str) -> (s: String)
    ensures
        s@ == a@ + b@,
{
    let mut s: String = String::from_str(a);
    s.append(b);
    s
}

/// `a`, `b` and `c` in a row.
pub fn concat3(a: &str, b: &str, c: &str) -> (s: String)
    ensures
        s@ == a@ + b@ + c@,
{
    let mut s: String = String::from_str(a);
    s.append(b);
    s.append(c);
    s
}

} // verus!
