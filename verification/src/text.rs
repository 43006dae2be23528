//! Strings as the engines use them: path composition and decimal numbers.

use vstd::prelude::*;
use vstd::string::*;

verus! {

/// The path of the entry `name` inside the directory `base`.
pub open spec fn joined(base: Seq<char>, name: Seq<char>) -> Seq<char> {
    base + seq!['/'] + name
}

/// Whether `path` is `dir` itself or lies anywhere below it.
pub open spec fn under(path: Seq<char>, dir: Seq<char>) -> bool {
    path == dir || (path.len() > dir.len() && path.subrange(0, dir.len() as int) == dir
        && path[dir.len() as int] == '/')
}

/// What lies below a directory lies below every directory that the
/// directory lies below.
pub proof fn lemma_under_is_transitive(path: Seq<char>, inner: Seq<char>, outer: Seq<char>)
    requires
        under(path, inner),
        under(inner, outer),
    ensures
        under(path, outer),
{
    if path != inner && inner != outer {
        let n = outer.len() as int;
        assert(path.subrange(0, inner.len() as int).subrange(0, n) =~= path.subrange(0, n));
        assert(path.subrange(0, inner.len() as int)[n] == path[n]);
    }
}

/// An entry of a directory lies below the directory.
pub proof fn lemma_entry_is_under(dir: Seq<char>, name: Seq<char>)
    ensures
        under(joined(dir, name), dir),
{
    let path = joined(dir, name);
    assert(path.subrange(0, dir.len() as int) =~= dir);
    assert(path[dir.len() as int] == '/');
}

/// Whether `name` can be one component of a path: it is not empty and holds
/// no separator.
pub open spec fn is_component(name: Seq<char>) -> bool {
    name.len() > 0 && forall|i: int| 0 <= i < name.len() ==> name[i] != '/'
}

/// The characters of each string of a list.
pub open spec fn texts(list: Seq<String>) -> Seq<Seq<char>> {
    Seq::new(list.len(), |i: int| list[i]@)
}

/// The characters of a string that may be absent.
pub open spec fn text_of(text: Option<String>) -> Option<Seq<char>> {
    match text {
        Some(text) => Some(text@),
        None => None,
    }
}

/// The decimal digit that stands for `d`.
pub open spec fn digit(d: nat) -> char {
    if d == 0 {
        '0'
    } else if d == 1 {
        '1'
    } else if d == 2 {
        '2'
    } else if d == 3 {
        '3'
    } else if d == 4 {
        '4'
    } else if d == 5 {
        '5'
    } else if d == 6 {
        '6'
    } else if d == 7 {
        '7'
    } else if d == 8 {
        '8'
    } else {
        '9'
    }
}

/// The decimal numeral of `n`, without leading zeros.
pub open spec fn decimal(n: nat) -> Seq<char>
    decreases n,
{
    if n < 10 {
        seq![digit(n)]
    } else {
        decimal(n / 10).push(digit(n % 10))
    }
}

/// The number that a decimal digit stands for; zero for any other character.
pub open spec fn digit_value(c: char) -> nat {
    if c == '1' {
        1
    } else if c == '2' {
        2
    } else if c == '3' {
        3
    } else if c == '4' {
        4
    } else if c == '5' {
        5
    } else if c == '6' {
        6
    } else if c == '7' {
        7
    } else if c == '8' {
        8
    } else if c == '9' {
        9
    } else {
        0
    }
}

/// The number that a string of decimal digits denotes.
pub open spec fn denoted(digits: Seq<char>) -> nat
    decreases digits.len(),
{
    if digits.len() == 0 {
        0
    } else {
        denoted(digits.drop_last()) * 10 + digit_value(digits.last())
    }
}

/// The decimal numeral of a number denotes the number, and has no leading
/// zero unless the number is zero.
pub proof fn law_decimal_denotes(n: nat)
    ensures
        denoted(decimal(n)) == n,
        decimal(n).len() > 0,
        n > 0 ==> decimal(n)[0] != '0',
    decreases n,
{
    if n < 10 {
        assert(decimal(n).drop_last() =~= Seq::empty());
        reveal_with_fuel(denoted, 2);
    } else {
        law_decimal_denotes(n / 10);
        assert(decimal(n).drop_last() =~= decimal(n / 10));
    }
}

/// Joins a directory and an entry name into one path.
pub fn join(base: &str, name: &str) -> (path: String)
    ensures
        path@ == joined(base@, name@),
{
    let mut path = String::from_str(base);
    proof {
        reveal_strlit("/");
    }
    path.append("/");
    path.append(name);
    assert(path@ =~= joined(base@, name@));
    path
}

/// Tells whether two strings hold the same characters.
pub fn same_text(a: &str, b: &str) -> (same: bool)
    ensures
        same == (a@ == b@),
{
    let left = String::from_str(a);
    let right = String::from_str(b);
    left == right
}

/// Tells whether `name` can be one component of a path.
pub fn component(name: &str) -> (ok: bool)
    ensures
        ok == is_component(name@),
{
    let n = name.unicode_len();
    if n == 0 {
        return false;
    }
    let mut i: usize = 0;
    while i < n
        invariant
            n == name@.len(),
            i <= n,
            forall|j: int| 0 <= j < i ==> name@[j] != '/',
        decreases n - i,
    {
        if name.get_char(i) == '/' {
            return false;
        }
        i = i + 1;
    }
    true
}

/// The decimal digit that stands for `d`, as a string.
fn digit_text(d: u64) -> (text: &'static str)
    requires
        d < 10,
    ensures
        text@ == seq![digit(d as nat)],
{
    proof {
        reveal_strlit("0");
        reveal_strlit("1");
        reveal_strlit("2");
        reveal_strlit("3");
        reveal_strlit("4");
        reveal_strlit("5");
        reveal_strlit("6");
        reveal_strlit("7");
        reveal_strlit("8");
        reveal_strlit("9");
    }
    let text = if d == 0 {
        "0"
    } else if d == 1 {
        "1"
    } else if d == 2 {
        "2"
    } else if d == 3 {
        "3"
    } else if d == 4 {
        "4"
    } else if d == 5 {
        "5"
    } else if d == 6 {
        "6"
    } else if d == 7 {
        "7"
    } else if d == 8 {
        "8"
    } else {
        "9"
    };
    assert(text@ =~= seq![digit(d as nat)]);
    text
}

/// Writes `n` as a decimal numeral.
pub fn numeral(n: u64) -> (text: String)
    ensures
        text@ == decimal(n as nat),
    decreases n,
{
    if n < 10 {
        String::from_str(digit_text(n))
    } else {
        let mut text = numeral(n / 10);
        text.append(digit_text(n % 10));
        assert(text@ =~= decimal(n as nat));
        text
    }
}

} // verus!
