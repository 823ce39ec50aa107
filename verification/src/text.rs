//! Building strings from characters, and hexadecimal and decimal numerals.

use vstd::prelude::*;
use vstd::string::StringExecFns;
use vstd::std_specs::iter::IteratorSpec;

verus! {

/// `std::string::String::push`: appends one character.
#[verifier::external_body]
pub(crate) fn push_char(s: &mut String, c: char)
    ensures
        final(s)@ == old(s)@.push(c),
{
    s.push(c);
}

/// Appends the characters of `t` to `s`.
pub fn push_str(s: &mut String, t: &str)
    ensures
        final(s)@ == old(s)@ + t@,
{
    s.append(t);
}

/// A string holding the characters of `chars`, in order.
pub fn string_from_chars(chars: &Vec<char>) -> (r: String)
    ensures
        r@ == chars@,
{
    let mut s = String::new();
    let mut i: usize = 0;
    while i < chars.len()
        invariant
            0 <= i <= chars.len(),
            s@ == chars@.subrange(0, i as int),
        decreases chars.len() - i,
    {
        push_char(&mut s, chars[i]);
        i = i + 1;
        assert(s@ =~= chars@.subrange(0, i as int));
    }
    assert(chars@.subrange(0, chars@.len() as int) =~= chars@);
    s
}

/// A string holding the characters of a string slice.
pub fn string_from_str(t: &str) -> (r: String)
    ensures
        r@ == t@,
{
    String::from_str(t)
}

/// The upper-case hexadecimal digit for `d`, which is below 16.
pub open spec fn hex_digit(d: nat) -> char
    recommends
        d < 16,
{
    if d < 10 {
        (('0' as nat) + d) as char
    } else {
        (('A' as nat) + (d - 10)) as char
    }
}

/// The upper-case hexadecimal digits of `n`, without leading zeros ("0" for zero).
pub open spec fn hex_digits(n: nat) -> Seq<char>
    decreases n,
{
    if n < 16 {
        seq![hex_digit(n)]
    } else {
        hex_digits(n / 16).push(hex_digit(n % 16))
    }
}

/// The way `{:#X}` writes a number: `0x` followed by its upper-case hexadecimal digits.
pub open spec fn alt_hex(n: nat) -> Seq<char> {
    seq!['0', 'x'] + hex_digits(n)
}

/// The decimal digits of `n`, without leading zeros ("0" for zero).
pub open spec fn dec_digits(n: nat) -> Seq<char>
    decreases n,
{
    if n < 10 {
        seq![(('0' as nat) + n) as char]
    } else {
        dec_digits(n / 10).push((('0' as nat) + n % 10) as char)
    }
}

/// How `{}` writes a signed number: a minus sign for negatives, then the decimal digits.
pub open spec fn dec_signed(n: int) -> Seq<char> {
    if n < 0 {
        seq!['-'] + dec_digits((-n) as nat)
    } else {
        dec_digits(n as nat)
    }
}

fn digit_char(d: u64, base_char: char, base: u64) -> (c: char)
    requires
        d < 26,
        base_char == '0' || base_char == 'A',
        base == base_char as u64,
    ensures
        c == ((base_char as nat) + d) as char,
{
    let code: u32 = (base + d) as u32;
    assert(code == (base_char as nat) + d);
    char_from_code(code)
}

/// The character with code point `code`, which lies in the ASCII range.
fn char_from_code(code: u32) -> (c: char)
    requires
        code < 128,
    ensures
        c == code as char,
{
    let b: u8 = code as u8;
    b as char
}

/// The upper-case hexadecimal digit for `d`.
pub fn hex_digit_char(d: u64) -> (c: char)
    requires
        d < 16,
    ensures
        c == hex_digit(d as nat),
{
    if d < 10 {
        digit_char(d, '0', 48)
    } else {
        digit_char(d - 10, 'A', 65)
    }
}

/// Writes `n` the way `{:#X}` does.
pub fn alt_hex_string(n: u64) -> (r: String)
    ensures
        r@ == alt_hex(n as nat),
{
    let mut rev: Vec<char> = Vec::new();
    let mut m: u64 = n;
    let ghost mut done: Seq<char> = seq![];
    // digits are produced from the least significant one upwards
    loop
        invariant_except_break
            hex_digits(n as nat) == hex_digits(m as nat) + done,
        invariant
            rev@.len() == done.len(),
            forall|i: int| 0 <= i < done.len() ==> #[trigger] rev@[i] == done[done.len() - 1 - i],
        ensures
            hex_digits(n as nat) == done,
        decreases m,
    {
        let d = m % 16;
        let c = hex_digit_char(d);
        rev.push(c);
        if m < 16 {
            proof {
                let old_done = done;
                done = seq![c] + old_done;
                assert(hex_digits(m as nat) == seq![c]);
                assert(hex_digits(n as nat) =~= done);
            }
            break;
        }
        proof {
            let old_done = done;
            done = seq![c] + old_done;
            assert(hex_digits(m as nat) == hex_digits((m / 16) as nat).push(c));
            assert(hex_digits(n as nat) =~= hex_digits((m / 16) as nat) + done);
        }
        m = m / 16;
    }
    let mut out = string_from_str("0x");
    proof {
        reveal_strlit("0x");
    }
    let mut k: usize = rev.len();
    while k > 0
        invariant
            k <= rev@.len(),
            rev@.len() == done.len(),
            hex_digits(n as nat) == done,
            forall|i: int| 0 <= i < done.len() ==> #[trigger] rev@[i] == done[done.len() - 1 - i],
            out@ == seq!['0', 'x'] + done.subrange(0, (done.len() - k) as int),
        decreases k,
    {
        k = k - 1;
        push_char(&mut out, rev[k]);
        assert(out@ =~= seq!['0', 'x'] + done.subrange(0, (done.len() - k) as int));
    }
    assert(done.subrange(0, done.len() as int) =~= done);
    out
}


/// Appends the decimal digits of `n` to `out`.
pub fn push_dec(out: &mut String, n: u64)
    ensures
        final(out)@ == old(out)@ + dec_digits(n as nat),
{
    let mut rev: Vec<char> = Vec::new();
    let mut m: u64 = n;
    let ghost mut done: Seq<char> = seq![];
    loop
        invariant_except_break
            dec_digits(n as nat) == dec_digits(m as nat) + done,
        invariant
            rev@.len() == done.len(),
            forall|i: int| 0 <= i < done.len() ==> #[trigger] rev@[i] == done[done.len() - 1 - i],
        ensures
            dec_digits(n as nat) == done,
        decreases m,
    {
        let d = m % 10;
        let c = digit_char(d, '0', 48);
        rev.push(c);
        if m < 10 {
            proof {
                let old_done = done;
                done = seq![c] + old_done;
                assert(dec_digits(m as nat) == seq![c]);
                assert(dec_digits(n as nat) =~= done);
            }
            break;
        }
        proof {
            let old_done = done;
            done = seq![c] + old_done;
            assert(dec_digits(m as nat) == dec_digits((m / 10) as nat).push(c));
            assert(dec_digits(n as nat) =~= dec_digits((m / 10) as nat) + done);
        }
        m = m / 10;
    }
    let ghost start = out@;
    let mut k: usize = rev.len();
    while k > 0
        invariant
            k <= rev@.len(),
            rev@.len() == done.len(),
            dec_digits(n as nat) == done,
            forall|i: int| 0 <= i < done.len() ==> #[trigger] rev@[i] == done[done.len() - 1 - i],
            out@ == start + done.subrange(0, (done.len() - k) as int),
        decreases k,
    {
        k = k - 1;
        push_char(out, rev[k]);
        assert(out@ =~= start + done.subrange(0, (done.len() - k) as int));
    }
    assert(done.subrange(0, done.len() as int) =~= done);
}

/// Appends `n` the way `{}` writes a signed number.
pub fn push_signed(out: &mut String, n: i64)
    ensures
        final(out)@ == old(out)@ + dec_signed(n as int),
{
    if n < 0 {
        push_char(out, '-');
        let m: u64 = if n == i64::MIN {
            9223372036854775808u64
        } else {
            (-n) as u64
        };
        push_dec(out, m);
        assert(final(out)@ =~= old(out)@ + dec_signed(n as int));
    } else {
        push_dec(out, n as u64);
    }
}


/// The lower-case hexadecimal digit for `d`, which is below 16.
pub open spec fn hex_digit_lower(d: nat) -> char
    recommends
        d < 16,
{
    if d < 10 {
        (('0' as nat) + d) as char
    } else {
        (('a' as nat) + (d - 10)) as char
    }
}

/// The lower-case hexadecimal digits of `n`, without leading zeros ("0" for zero).
pub open spec fn hex_digits_lower(n: nat) -> Seq<char>
    decreases n,
{
    if n < 16 {
        seq![hex_digit_lower(n)]
    } else {
        hex_digits_lower(n / 16).push(hex_digit_lower(n % 16))
    }
}

/// The way `{:#x}` writes a number: `0x` followed by its lower-case hexadecimal digits.
pub open spec fn alt_hex_lower(n: nat) -> Seq<char> {
    seq!['0', 'x'] + hex_digits_lower(n)
}

/// The lower-case hexadecimal digit for `d`.
fn hex_digit_lower_char(d: u64) -> (c: char)
    requires
        d < 16,
    ensures
        c == hex_digit_lower(d as nat),
{
    if d < 10 {
        let code: u32 = (48 + d) as u32;
        char_from_code(code)
    } else {
        let code: u32 = (97 + (d - 10)) as u32;
        char_from_code(code)
    }
}

/// Appends `n` the way `{:#x}` writes it.
pub fn push_alt_hex_lower(out: &mut String, n: u64)
    ensures
        final(out)@ == old(out)@ + alt_hex_lower(n as nat),
{
    let mut rev: Vec<char> = Vec::new();
    let mut m: u64 = n;
    let ghost mut done: Seq<char> = seq![];
    loop
        invariant_except_break
            hex_digits_lower(n as nat) == hex_digits_lower(m as nat) + done,
        invariant
            rev@.len() == done.len(),
            forall|i: int| 0 <= i < done.len() ==> #[trigger] rev@[i] == done[done.len() - 1 - i],
        ensures
            hex_digits_lower(n as nat) == done,
        decreases m,
    {
        let d = m % 16;
        let c = hex_digit_lower_char(d);
        rev.push(c);
        if m < 16 {
            proof {
                let old_done = done;
                done = seq![c] + old_done;
                assert(hex_digits_lower(m as nat) == seq![c]);
                assert(hex_digits_lower(n as nat) =~= done);
            }
            break;
        }
        proof {
            let old_done = done;
            done = seq![c] + old_done;
            assert(hex_digits_lower(m as nat) == hex_digits_lower((m / 16) as nat).push(c));
            assert(hex_digits_lower(n as nat) =~= hex_digits_lower((m / 16) as nat) + done);
        }
        m = m / 16;
    }
    push_char(out, '0');
    push_char(out, 'x');
    let ghost start = out@;
    assert(start == old(out)@ + seq!['0', 'x']);
    let mut k: usize = rev.len();
    while k > 0
        invariant
            k <= rev@.len(),
            rev@.len() == done.len(),
            hex_digits_lower(n as nat) == done,
            forall|i: int| 0 <= i < done.len() ==> #[trigger] rev@[i] == done[done.len() - 1 - i],
            out@ == start + done.subrange(0, (done.len() - k) as int),
        decreases k,
    {
        k = k - 1;
        push_char(out, rev[k]);
        assert(out@ =~= start + done.subrange(0, (done.len() - k) as int));
    }
    assert(done.subrange(0, done.len() as int) =~= done);
    assert(out@ =~= old(out)@ + alt_hex_lower(n as nat));
}

/// Appends `n` the way `{:#X}` writes it.
pub fn push_alt_hex(out: &mut String, n: u64)
    ensures
        final(out)@ == old(out)@ + alt_hex(n as nat),
{
    let h = alt_hex_string(n);
    push_str(out, h.as_str());
}

} // verus!

verus! {

/// The lexicographic order of two character sequences: -1 where `x` comes first,
/// 1 where `y` does, 0 where they are equal. A proper prefix comes first.
pub open spec fn lex_order(x: Seq<char>, y: Seq<char>) -> int
    decreases x.len(),
{
    if x.len() == 0 {
        if y.len() == 0 { 0 } else { -1 }
    } else if y.len() == 0 {
        1
    } else if x[0] < y[0] {
        -1
    } else if x[0] > y[0] {
        1
    } else {
        lex_order(x.drop_first(), y.drop_first())
    }
}

/// The lexicographic order is a total order: its answer is -1, 0 or 1, it is 0
/// exactly for equal sequences, and swapping the two sequences negates it.
pub proof fn lemma_lex_order_laws(x: Seq<char>, y: Seq<char>)
    ensures
        -1 <= lex_order(x, y) <= 1,
        lex_order(x, y) == 0 <==> x == y,
        lex_order(x, y) == -lex_order(y, x),
    decreases x.len(),
{
    if x.len() > 0 && y.len() > 0 && x[0] == y[0] {
        lemma_lex_order_laws(x.drop_first(), y.drop_first());
        if x.drop_first() == y.drop_first() {
            assert(x =~= y) by {
                assert forall|i: int| 0 <= i < x.len() implies x[i] == y[i] by {
                    if i > 0 {
                        assert(x[i] == x.drop_first()[i - 1]);
                        assert(y[i] == y.drop_first()[i - 1]);
                    }
                }
            }
        }
        if x == y {
            assert(x.drop_first() == y.drop_first());
        }
    } else if x.len() > 0 && y.len() > 0 {
        assert(x != y);
    } else if x.len() == 0 && y.len() == 0 {
        assert(x =~= y);
    }
}

/// The lexicographic order of `x` and `y` by their characters, as `lex_order` says.
pub fn text_order(x: &str, y: &str) -> (r: i8)
    ensures
        r == lex_order(x@, y@),
{
    broadcast use vstd::string::axiom_spec_iter, vstd::string::next_postcondition;
    let mut a = x.chars();
    let mut b = y.chars();
    loop
        invariant
            lex_order(a.remaining(), b.remaining()) == lex_order(x@, y@),
            a.decrease() is Some,
        decreases a.decrease()->0,
    {
        let ca = a.next();
        let cb = b.next();
        match (ca, cb) {
            (None, None) => {
                return 0;
            },
            (None, Some(_)) => {
                return -1;
            },
            (Some(_), None) => {
                return 1;
            },
            (Some(p), Some(q)) => {
                if p < q {
                    return -1;
                } else if p > q {
                    return 1;
                }
            },
        }
    }
}

} // verus!
