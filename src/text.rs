use vstd::prelude::*;
use vstd::string::*;

verus! {

/// What `str::to_lowercase` makes of a string.
pub uninterp spec fn lower_of(s: Seq<char>) -> Seq<char>;

/// Relies on `str::to_lowercase`: the result depends on the characters alone,
/// and an empty string stays empty.
#[verifier::external_body]
pub(crate) fn lowercase(s: &str) -> (r: String)
    ensures
        r@ == lower_of(s@),
        s@.len() == 0 ==> r@.len() == 0,
{
    s.to_lowercase()
}

/// The position of the last `c` in `s`, or -1 when there is none.
pub open spec fn last_index_of(s: Seq<char>, c: char) -> int
    decreases s.len(),
{
    if s.len() == 0 {
        -1
    } else if s.last() == c {
        s.len() - 1
    } else {
        last_index_of(s.drop_last(), c)
    }
}

pub proof fn lemma_last_index_of_range(s: Seq<char>, c: char)
    ensures
        -1 <= last_index_of(s, c) < s.len(),
        last_index_of(s, c) >= 0 ==> s[last_index_of(s, c)] == c,
    decreases s.len(),
{
    if s.len() > 0 && s.last() != c {
        lemma_last_index_of_range(s.drop_last(), c);
    }
}

/// Finds the last `c` in `s`.
pub fn find_last(s: &str, c: char) -> (r: Option<usize>)
    ensures
        r is None <==> last_index_of(s@, c) == -1,
        r is Some ==> r->0 as int == last_index_of(s@, c),
{
    proof {
        lemma_last_index_of_range(s@, c);
    }
    let n = s.unicode_len();
    let mut i: usize = n;
    assert(s@.take(n as int) =~= s@);
    while i > 0
        invariant
            0 <= i <= n,
            n == s@.len(),
            last_index_of(s@, c) == last_index_of(s@.take(i as int), c),
        decreases i,
    {
        let ghost t = s@.take(i as int);
        assert(t.drop_last() =~= s@.take(i as int - 1));
        if s.get_char(i - 1) == c {
            return Some(i - 1);
        }
        i = i - 1;
    }
    assert(s@.take(0) =~= Seq::<char>::empty());
    None
}

/// The decimal digits of `n`.
pub open spec fn decimal(n: nat) -> Seq<char>
    decreases n,
{
    if n < 10 {
        seq![digit_char(n)]
    } else {
        decimal(n / 10).push(digit_char(n % 10))
    }
}

pub open spec fn digit_char(d: nat) -> char {
    if d == 0 { '0' }
    else if d == 1 { '1' }
    else if d == 2 { '2' }
    else if d == 3 { '3' }
    else if d == 4 { '4' }
    else if d == 5 { '5' }
    else if d == 6 { '6' }
    else if d == 7 { '7' }
    else if d == 8 { '8' }
    else { '9' }
}

/// Writes `n` in decimal.
pub fn decimal_string(n: u64) -> (r: String)
    ensures
        r@ == decimal(n as nat),
    decreases n,
{
    let digits = "0123456789";
    proof {
        reveal_strlit("0123456789");
    }
    let d = (n % 10) as usize;
    let last = digits.substring_char(d, d + 1);
    assert(last@ == seq![digit_char(d as nat)]);
    if n < 10 {
        String::from_str(last)
    } else {
        let mut head = decimal_string(n / 10);
        head.append(last);
        head
    }
}

/// The lower-case hexadecimal digits of `n`, as `{:x}` writes them.
pub open spec fn hex(n: nat) -> Seq<char>
    decreases n,
{
    if n < 16 {
        seq![hex_char(n)]
    } else {
        hex(n / 16).push(hex_char(n % 16))
    }
}

pub open spec fn hex_char(d: nat) -> char {
    if d < 10 {
        digit_char(d)
    } else if d == 10 { 'a' }
    else if d == 11 { 'b' }
    else if d == 12 { 'c' }
    else if d == 13 { 'd' }
    else if d == 14 { 'e' }
    else { 'f' }
}

/// Writes `n` in lower-case hexadecimal.
pub fn hex_string(n: u64) -> (r: String)
    ensures
        r@ == hex(n as nat),
    decreases n,
{
    let digits = "0123456789abcdef";
    proof {
        reveal_strlit("0123456789abcdef");
    }
    let d = (n % 16) as usize;
    let last = digits.substring_char(d, d + 1);
    assert(last@ == seq![hex_char(d as nat)]);
    if n < 16 {
        String::from_str(last)
    } else {
        let mut head = hex_string(n / 16);
        head.append(last);
        head
    }
}

} // verus!
