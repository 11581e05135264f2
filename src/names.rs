//! Textual helpers: class-name mangling for markup tags and the keys given to
//! spread attributes.
use vstd::prelude::*;

verus! {

/// Relies on `String::push`: appends one character at the end.
#[verifier::external_body]
pub(crate) fn push_char(s: &mut String, c: char)
    ensures
        final(s)@ == old(s)@.push(c),
{
    s.push(c)
}

/// `s` without its first character when that character is `c`.
pub open spec fn strip_leading(s: Seq<char>, c: char) -> Seq<char> {
    if s.len() > 0 && s[0] == c {
        s.drop_first()
    } else {
        s
    }
}

/// Separators of a markup tag become underscores in the runtime class name.
pub open spec fn mangle_char(c: char) -> char {
    if c == ':' || c == '-' {
        '_'
    } else {
        c
    }
}

/// The runtime class name of a markup tag: the global-namespace backslash and
/// the leading colon of a tag are dropped, and every `:` or `-` becomes `_`.
pub open spec fn mangled_class_name(tag: Seq<char>) -> Seq<char> {
    strip_leading(strip_leading(tag, '\\'), ':').map_values(|c: char| mangle_char(c))
}

/// The decimal digit character for `d < 10`.
pub open spec fn digit_char(d: nat) -> char {
    ((d + 48) as u8) as char
}

/// Decimal notation of `n`, without leading zeros.
pub open spec fn decimal(n: nat) -> Seq<char>
    decreases n,
{
    if n < 10 {
        seq![digit_char(n)]
    } else {
        decimal(n / 10).push(digit_char(n % 10))
    }
}

/// The shape key of the spread attribute with zero-based index `n`: `...n`.
pub open spec fn spread_key(n: nat) -> Seq<char> {
    seq!['.', '.', '.'] + decimal(n)
}

/// Appends the decimal notation of `n` to `s`.
pub fn push_decimal(s: &mut String, n: u64)
    ensures
        final(s)@ == old(s)@ + decimal(n as nat),
    decreases n,
{
    if n >= 10 {
        push_decimal(s, n / 10);
    }
    let d: u64 = n % 10;
    let c = (48u8 + d as u8) as char;
    push_char(s, c);
    proof {
        assert(c == digit_char((n % 10) as nat));
        if n >= 10 {
            assert(decimal(n as nat) == decimal((n / 10) as nat).push(c));
        } else {
            assert(decimal(n as nat) == seq![c]);
        }
        assert(final(s)@ =~= old(s)@ + decimal(n as nat));
    }
}

/// The key `...n` under which the `n`-th spread attribute of a markup node is
/// passed to the constructor.
pub fn make_spread_key(n: u64) -> (r: String)
    ensures
        r@ == spread_key(n as nat),
{
    let mut s = String::new();
    push_char(&mut s, '.');
    push_char(&mut s, '.');
    push_char(&mut s, '.');
    push_decimal(&mut s, n);
    assert(s@ =~= spread_key(n as nat));
    s
}

/// The runtime class name that the markup tag `tag` denotes.
pub fn mangle_class_name(tag: &str) -> (r: String)
    ensures
        r@ == mangled_class_name(tag@),
{
    let n = tag.unicode_len();
    let mut i: usize = 0;
    if i < n && tag.get_char(i) == '\\' {
        i = i + 1;
    }
    if i < n && tag.get_char(i) == ':' {
        i = i + 1;
    }
    let ghost rest = strip_leading(strip_leading(tag@, '\\'), ':');
    assert(rest =~= tag@.subrange(i as int, n as int));
    let start = i;
    let mut r = String::new();
    while i < n
        invariant
            start <= i <= n,
            n == tag@.len(),
            rest =~= tag@.subrange(start as int, n as int),
            r@ =~= tag@.subrange(start as int, i as int).map_values(|c: char| mangle_char(c)),
        decreases n - i,
    {
        let c = tag.get_char(i);
        let m = if c == ':' || c == '-' {
            '_'
        } else {
            c
        };
        push_char(&mut r, m);
        i = i + 1;
    }
    r
}

} // verus!
