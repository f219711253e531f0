//! Decimal and binary text of numbers, and splitting byte text at a separator.
//!
//! All text here is ASCII bytes. The parsing rules follow those of the
//! standard library's `FromStr` for unsigned integers: an optional `+`, then
//! at least one decimal digit, and a value that fits the target type.
use vstd::prelude::*;

verus! {

/// The ASCII code of `'0'`.
pub const ASCII_ZERO: u8 = 48;

/// The ASCII code of `'+'`.
pub const ASCII_PLUS: u8 = 43;

/// The byte of the decimal digit `d` (for `d < 10`).
pub open spec fn digit_byte(d: nat) -> u8 {
    (ASCII_ZERO + d) as u8
}

/// Whether `b` is an ASCII decimal digit.
pub open spec fn is_digit(b: u8) -> bool {
    ASCII_ZERO <= b && b <= ASCII_ZERO + 9
}

/// The shortest decimal text of `n`: no sign, no leading zero (but `"0"` for zero).
pub open spec fn decimal(n: nat) -> Seq<u8>
    decreases n,
{
    if n < 10 {
        seq![digit_byte(n)]
    } else {
        decimal(n / 10).push(digit_byte(n % 10))
    }
}

/// Whether every byte of `s` is a decimal digit.
pub open spec fn all_digits(s: Seq<u8>) -> bool {
    forall|i: int| 0 <= i < s.len() ==> is_digit(#[trigger] s[i])
}

/// The value of a run of decimal digits, most significant first.
pub open spec fn digits_value(s: Seq<u8>) -> nat
    decreases s.len(),
{
    if s.len() == 0 {
        0
    } else {
        digits_value(s.drop_last()) * 10 + (s.last() - ASCII_ZERO) as nat
    }
}

/// The digits of an unsigned decimal text: the text without one leading `+`.
pub open spec fn unsigned_digits(s: Seq<u8>) -> Seq<u8> {
    if s.len() > 0 && s[0] == ASCII_PLUS {
        s.drop_first()
    } else {
        s
    }
}

/// The value of an unsigned decimal text, or `None` where the text is not one:
/// an optional `+` followed by one or more decimal digits.
pub open spec fn parse_unsigned(s: Seq<u8>) -> Option<nat> {
    let d = unsigned_digits(s);
    if d.len() > 0 && all_digits(d) {
        Some(digits_value(d))
    } else {
        None
    }
}

/// The value of an unsigned decimal text that is at most `max`, else `None`.
pub open spec fn parse_bounded(s: Seq<u8>, max: nat) -> Option<nat> {
    match parse_unsigned(s) {
        Some(v) => if v <= max {
            Some(v)
        } else {
            None
        },
        None => None,
    }
}

/// The binary text of the lowest `width` bits of `v`, most significant first.
pub open spec fn binary_digits(v: nat, width: nat) -> Seq<u8>
    decreases width,
{
    if width == 0 {
        Seq::empty()
    } else {
        binary_digits(v / 2, (width - 1) as nat).push(digit_byte(v % 2))
    }
}

/// The pieces of `s` between occurrences of `sep`, read from the left:
/// the pieces already closed, and the piece still open.
pub open spec fn split_state(s: Seq<u8>, sep: u8) -> (Seq<Seq<u8>>, Seq<u8>)
    decreases s.len(),
{
    if s.len() == 0 {
        (Seq::empty(), Seq::empty())
    } else {
        let (closed, open) = split_state(s.drop_last(), sep);
        if s.last() == sep {
            (closed.push(open), Seq::empty())
        } else {
            (closed, open.push(s.last()))
        }
    }
}

/// The pieces of `s` between occurrences of `sep`, as `str::split` gives them:
/// one more piece than there are separators, empty pieces included.
pub open spec fn split_on(s: Seq<u8>, sep: u8) -> Seq<Seq<u8>> {
    let (closed, open) = split_state(s, sep);
    closed.push(open)
}

/// Appends the decimal text of `n` to `out`.
pub fn push_decimal(out: &mut Vec<u8>, n: u64)
    ensures
        final(out)@ == old(out)@ + decimal(n as nat),
    decreases n,
{
    if n >= 10 {
        push_decimal(out, n / 10);
    }
    out.push(ASCII_ZERO + (n % 10) as u8);
    proof {
        assert(old(out)@ + decimal(n as nat) =~= if n >= 10 {
            old(out)@ + decimal((n / 10) as nat) + seq![digit_byte((n % 10) as nat)]
        } else {
            old(out)@ + seq![digit_byte(n as nat)]
        });
    }
}

/// Appends all of `bytes` to `out`.
pub fn push_all(out: &mut Vec<u8>, bytes: &[u8])
    ensures
        final(out)@ == old(out)@ + bytes@,
{
    let mut i: usize = 0;
    while i < bytes.len()
        invariant
            i <= bytes@.len(),
            out@ == old(out)@ + bytes@.subrange(0, i as int),
        decreases bytes@.len() - i,
    {
        out.push(bytes[i]);
        i = i + 1;
        assert(bytes@.subrange(0, i as int) == bytes@.subrange(0, i - 1).push(bytes@[i - 1]));
    }
    assert(bytes@.subrange(0, bytes@.len() as int) == bytes@);
}

/// Appends the binary text of `v`, all eight bits, most significant first.
pub fn push_binary8(out: &mut Vec<u8>, v: u8)
    ensures
        final(out)@ == old(out)@ + binary_digits(v as nat, 8),
{
    let mut digits: Vec<u8> = Vec::new();
    let mut rest: u8 = v;
    let mut k: usize = 0;
    while k < 8
        invariant
            k <= 8,
            binary_digits(v as nat, 8) == binary_digits(rest as nat, (8 - k) as nat) + digits@,
        decreases 8 - k,
    {
        let ghost before = digits@;
        let bit: u8 = ASCII_ZERO + rest % 2;
        digits.insert(0, bit);
        proof {
            assert(digits@ == seq![digit_byte((rest % 2) as nat)] + before);
            assert(binary_digits(rest as nat, (8 - k) as nat) == binary_digits(
                (rest / 2) as nat,
                (8 - k - 1) as nat,
            ).push(digit_byte((rest % 2) as nat)));
            assert(binary_digits((rest / 2) as nat, (8 - k - 1) as nat).push(
                digit_byte((rest % 2) as nat),
            ) + before =~= binary_digits((rest / 2) as nat, (8 - k - 1) as nat) + digits@);
        }
        rest = rest / 2;
        k = k + 1;
    }
    assert(binary_digits(rest as nat, 0) =~= Seq::<u8>::empty());
    assert(binary_digits(v as nat, 8) =~= digits@);
    push_all(out, digits.as_slice());
}

/// Splits `s` at every occurrence of `sep`, as `str::split` with a one-byte pattern does.
pub fn split_on_byte(s: &[u8], sep: u8) -> (pieces: Vec<Vec<u8>>)
    ensures
        pieces.deep_view() == split_on(s@, sep),
{
    let mut closed: Vec<Vec<u8>> = Vec::new();
    let mut open: Vec<u8> = Vec::new();
    let mut i: usize = 0;
    while i < s.len()
        invariant
            i <= s@.len(),
            (closed.deep_view(), open@) == split_state(s@.subrange(0, i as int), sep),
        decreases s@.len() - i,
    {
        let ghost prefix = s@.subrange(0, i as int);
        let b = s[i];
        assert(s@.subrange(0, i + 1).drop_last() =~= prefix);
        if b == sep {
            let piece = open;
            let ghost before = closed.deep_view();
            assert(piece.deep_view() =~= piece@);
            closed.push(piece);
            open = Vec::new();
            assert(closed.deep_view() =~= before.push(piece.deep_view()));
        } else {
            open.push(b);
        }
        i = i + 1;
    }
    assert(s@.subrange(0, s@.len() as int) =~= s@);
    let ghost c = closed.deep_view();
    assert(open.deep_view() =~= open@);
    closed.push(open);
    assert(closed.deep_view() =~= c.push(open.deep_view()));
    closed
}

/// Reads an unsigned decimal text whose value is at most `max`:
/// `None` where the text is not an unsigned decimal or its value exceeds `max`.
pub fn parse_decimal(s: &[u8], max: u32) -> (r: Option<u32>)
    requires
        max <= 65535,
    ensures
        match r {
            Some(v) => parse_bounded(s@, max as nat) == Some(v as nat),
            None => parse_bounded(s@, max as nat) is None,
        },
{
    let start: usize = if s.len() > 0 && s[0] == ASCII_PLUS {
        1
    } else {
        0
    };
    let ghost d = unsigned_digits(s@);
    assert(d =~= s@.subrange(start as int, s@.len() as int));
    if start >= s.len() {
        return None;
    }
    let mut value: u32 = 0;
    let mut over: bool = false;
    let mut i: usize = start;
    while i < s.len()
        invariant
            start <= i <= s@.len(),
            d == unsigned_digits(s@),
            d =~= s@.subrange(start as int, s@.len() as int),
            max <= 65535,
            all_digits(s@.subrange(start as int, i as int)),
            !over ==> value == digits_value(s@.subrange(start as int, i as int)) && value <= max,
            over ==> digits_value(s@.subrange(start as int, i as int)) > max,
        decreases s@.len() - i,
    {
        let b = s[i];
        let ghost pre = s@.subrange(start as int, i as int);
        let ghost next = s@.subrange(start as int, i + 1);
        assert(next.drop_last() =~= pre);
        if b < ASCII_ZERO || b > ASCII_ZERO + 9 {
            assert(!all_digits(d)) by {
                assert(d[i - start] == b);
            }
            return None;
        }
        assert(all_digits(next)) by {
            assert forall|j: int| 0 <= j < next.len() implies is_digit(#[trigger] next[j]) by {
                if j < pre.len() {
                    assert(next[j] == pre[j]);
                }
            }
        }
        if !over {
            let nv: u32 = value * 10 + (b - ASCII_ZERO) as u32;
            if nv > max {
                over = true;
            } else {
                value = nv;
            }
        } else {
            assert(digits_value(next) >= digits_value(pre));
        }
        i = i + 1;
    }
    assert(s@.subrange(start as int, s@.len() as int) =~= d);
    if over {
        None
    } else {
        Some(value)
    }
}

/// `decimal(n)` is a non-empty run of digits that does not start with `+`, and reads back as `n`.
pub proof fn lemma_decimal_digits(n: nat)
    ensures
        decimal(n).len() > 0,
        all_digits(decimal(n)),
        digits_value(decimal(n)) == n,
        decimal(n)[0] != ASCII_PLUS,
    decreases n,
{
    if n >= 10 {
        lemma_decimal_digits(n / 10);
        let d = decimal(n);
        assert(d.drop_last() =~= decimal(n / 10));
        assert(d.last() == digit_byte(n % 10));
        assert((d.last() - ASCII_ZERO) as nat == n % 10);
        assert(digits_value(d) == digits_value(decimal(n / 10)) * 10 + n % 10);
        assert((n / 10) * 10 + n % 10 == n);
        assert forall|i: int| 0 <= i < d.len() implies is_digit(#[trigger] d[i]) by {
            if i < d.len() - 1 {
                assert(d[i] == decimal(n / 10)[i]);
            }
        }
        assert(d[0] == decimal(n / 10)[0]);
    } else {
        let d = decimal(n);
        assert(d.drop_last() =~= Seq::<u8>::empty());
        assert(digits_value(d.drop_last()) == 0);
        assert(d.last() == digit_byte(n));
        assert(digits_value(d) == digits_value(d.drop_last()) * 10 + (d.last() - ASCII_ZERO) as nat);
    }
}

/// Law: the decimal text of a number reads back as that number.
pub proof fn lemma_parse_decimal_roundtrip(n: nat)
    ensures
        parse_unsigned(decimal(n)) == Some(n),
{
    lemma_decimal_digits(n);
    assert(unsigned_digits(decimal(n)) == decimal(n));
}

/// A piece that holds no separator leaves the open piece growing and closes none.
pub proof fn lemma_split_state_append(x: Seq<u8>, b: Seq<u8>, sep: u8)
    requires
        !b.contains(sep),
    ensures
        split_state(x + b, sep) == (split_state(x, sep).0, split_state(x, sep).1 + b),
    decreases b.len(),
{
    if b.len() == 0 {
        assert(x + b =~= x);
        assert(split_state(x, sep).1 + b =~= split_state(x, sep).1);
    } else {
        let b0 = b.drop_last();
        assert(!b0.contains(sep)) by {
            if b0.contains(sep) {
                let j = choose|j: int| 0 <= j < b0.len() && b0[j] == sep;
                assert(b[j] == sep);
            }
        }
        lemma_split_state_append(x, b0, sep);
        assert((x + b).drop_last() =~= x + b0);
        assert((x + b).last() == b.last());
        assert(b.last() != sep) by {
            assert(b[b.len() - 1] == b.last());
        }
        assert(split_state(x, sep).1 + b0.push(b.last()) =~= split_state(x, sep).1 + b);
        assert(b0.push(b.last()) =~= b);
        assert((split_state(x, sep).1 + b0).push(b.last()) =~= split_state(x, sep).1 + b);
    }
}

/// Appending the separator closes the open piece.
pub proof fn lemma_split_state_sep(x: Seq<u8>, sep: u8)
    ensures
        split_state(x.push(sep), sep) == (
            split_state(x, sep).0.push(split_state(x, sep).1),
            Seq::<u8>::empty(),
        ),
{
    assert(x.push(sep).drop_last() =~= x);
}

/// The decimal text of a number holds no byte other than digits.
pub proof fn lemma_decimal_has_no(n: nat, b: u8)
    requires
        !is_digit(b),
    ensures
        !decimal(n).contains(b),
{
    lemma_decimal_digits(n);
    if decimal(n).contains(b) {
        let j = choose|j: int| 0 <= j < decimal(n).len() && decimal(n)[j] == b;
        assert(is_digit(decimal(n)[j]));
    }
}

/// The value of a run of binary digits (`'0'` and `'1'`), most significant first.
pub open spec fn binary_value(s: Seq<u8>) -> nat
    decreases s.len(),
{
    if s.len() == 0 {
        0
    } else {
        binary_value(s.drop_last()) * 2 + (if s.last() == ASCII_ZERO {
            0nat
        } else {
            1nat
        })
    }
}

/// Two to the power `w`.
pub open spec fn two_pow(w: nat) -> nat
    decreases w,
{
    if w == 0 {
        1
    } else {
        2 * two_pow((w - 1) as nat)
    }
}

/// Law: the binary text of the lowest `width` bits of a value below `2^width` has
/// `width` digits, each `'0'` or `'1'`, and reads back as that value.
pub proof fn lemma_binary_digits_read_back(v: nat, width: nat)
    requires
        v < two_pow(width),
    ensures
        binary_digits(v, width).len() == width,
        forall|i: int|
            0 <= i < width ==> #[trigger] binary_digits(v, width)[i] == ASCII_ZERO
                || binary_digits(v, width)[i] == ASCII_ZERO + 1,
        binary_value(binary_digits(v, width)) == v,
    decreases width,
{
    if width > 0 {
        let w1 = (width - 1) as nat;
        assert(v / 2 < two_pow(w1));
        lemma_binary_digits_read_back(v / 2, w1);
        let d = binary_digits(v, width);
        assert(d.drop_last() =~= binary_digits(v / 2, w1));
        assert forall|i: int| 0 <= i < width implies #[trigger] d[i] == ASCII_ZERO || d[i]
            == ASCII_ZERO + 1 by {
            if i < w1 {
                assert(d[i] == binary_digits(v / 2, w1)[i]);
            }
        }
        assert(d.last() == digit_byte(v % 2));
        assert(binary_value(d) == binary_value(binary_digits(v / 2, w1)) * 2 + v % 2);
    } else {
        assert(v == 0);
    }
}

} // verus!
