//! Text the programs exchange: decimal numbers, topics and message lines.
use vstd::prelude::*;
use vstd::string::StringExecFns;
use vstd::utf8::{decode_utf8, valid_utf8};

verus! {

/// Whether `c` is an ASCII decimal digit.
pub open spec fn is_digit(c: char) -> bool {
    '0' <= c <= '9'
}

/// Whether every character of `s` is a decimal digit.
pub open spec fn all_digits(s: Seq<char>) -> bool {
    forall|i: int| 0 <= i < s.len() ==> is_digit(#[trigger] s[i])
}

/// The value of the decimal digit `c`.
pub open spec fn digit_value(c: char) -> nat {
    (c as int - '0' as int) as nat
}

/// The value of a string of decimal digits, most significant first.
pub open spec fn digits_value(s: Seq<char>) -> nat
    decreases s.len(),
{
    if s.len() == 0 {
        0
    } else {
        digits_value(s.drop_last()) * 10 + digit_value(s.last())
    }
}

/// The digits of an unsigned number as text: one leading `+` is dropped when
/// something follows it.
pub open spec fn unsigned_digits(s: Seq<char>) -> Seq<char> {
    if s.len() > 1 && s[0] == '+' {
        s.drop_first()
    } else {
        s
    }
}

/// The `u32` that `s` spells in decimal, as Rust's `str::parse::<u32>` reads
/// it: an optional `+`, then one or more digits whose value fits in 32 bits.
pub open spec fn parsed_u32(s: Seq<char>) -> Option<u32> {
    let d = unsigned_digits(s);
    if d.len() > 0 && all_digits(d) && digits_value(d) <= u32::MAX {
        Some(digits_value(d) as u32)
    } else {
        None
    }
}

/// Reads a decimal `u32` from `s`; `None` where `s` is not one.
pub fn parse_u32(s: &str) -> (res: Option<u32>)
    ensures
        res == parsed_u32(s@),
{
    let mut chars: Vec<char> = Vec::new();
    for c in it: s.chars()
        invariant
            chars@ == it.seq().take(it.index() as int),
    {
        chars.push(c);
    }
    assert(chars@ =~= s@);
    let n = chars.len();
    let start: usize = if n > 1 && chars[0] == '+' { 1 } else { 0 };
    let ghost d = unsigned_digits(s@);
    assert(d =~= chars@.skip(start as int));
    if start == n {
        return None;
    }
    let mut value: u64 = 0;
    let mut i = start;
    while i < n
        invariant
            start <= i <= n,
            n == chars@.len(),
            d =~= chars@.skip(start as int),
            d == unsigned_digits(s@),
            forall|j: int| start <= j < i ==> is_digit(#[trigger] chars@[j]),
            value == digits_value(chars@.subrange(start as int, i as int)),
            value <= u32::MAX,
        decreases n - i,
    {
        let c = chars[i];
        if !('0' <= c && c <= '9') {
            assert(d[i - start] == c);
            assert(!is_digit(d[i - start]));
            return None;
        }
        let digit = (c as u32 - '0' as u32) as u64;
        assert(chars@.subrange(start as int, i + 1).drop_last() =~= chars@.subrange(
            start as int,
            i as int,
        ));
        value = value * 10 + digit;
        if value > 4294967295 {
            proof {
                let p = chars@.subrange(start as int, i + 1);
                if all_digits(d) {
                    assert(p =~= d.subrange(0, p.len() as int));
                    lemma_digits_value_grows(p, d);
                }
            }
            return None;
        }
        i = i + 1;
    }
    assert(chars@.subrange(start as int, n as int) =~= d);
    Some(value as u32)
}

/// A string of digits is worth no more than any string of digits it begins.
proof fn lemma_digits_value_grows(p: Seq<char>, s: Seq<char>)
    requires
        p.len() <= s.len(),
        p =~= s.subrange(0, p.len() as int),
        forall|i: int| 0 <= i < s.len() ==> is_digit(#[trigger] s[i]),
    ensures
        digits_value(p) <= digits_value(s),
    decreases s.len() - p.len(),
{
    if p.len() == s.len() {
        assert(p =~= s);
    } else {
        let q = s.subrange(0, p.len() + 1 as int);
        assert(q.drop_last() =~= p);
        let a = digits_value(p);
        let b = digit_value(q.last());
        assert(digits_value(q) == a * 10 + b);
        assert(a * 10 + b >= a) by (nonlinear_arith)
            requires
                a >= 0,
                b >= 0,
        ;
        lemma_digits_value_grows(q, s);
    }
}

/// The character of the decimal digit `d` (below ten).
pub open spec fn digit_char(d: nat) -> char {
    ((d + 48) as u8) as char
}

/// The decimal digits of `n`, most significant first, without leading zeros.
pub open spec fn decimal(n: nat) -> Seq<char>
    decreases n,
{
    if n < 10 {
        seq![digit_char(n)]
    } else {
        decimal(n / 10).push(digit_char(n % 10))
    }
}

/// `n` in decimal as Rust displays an integer: a `-` before the digits of a
/// negative number.
pub open spec fn signed_decimal(n: int) -> Seq<char> {
    if n < 0 {
        seq!['-'] + decimal((-n) as nat)
    } else {
        decimal(n as nat)
    }
}

/// What `String::from_utf8_lossy` makes of `bytes`.
pub uninterp spec fn utf8_lossy(bytes: Seq<u8>) -> Seq<char>;

/// Appends `c` to `s`, with `String::push`.
#[verifier::external_body]
fn push_char(s: &mut String, c: char)
    ensures
        final(s)@ == old(s)@.push(c),
{
    s.push(c)
}

/// The text of `bytes` read as UTF-8, with `String::from_utf8_lossy`: each
/// invalid sequence becomes U+FFFD. Of valid UTF-8 it is the decoded text;
/// what it gives on other bytes is left to the name.
#[verifier::external_body]
pub(crate) fn lossy_text(bytes: &[u8]) -> (res: String)
    ensures
        res@ == utf8_lossy(bytes@),
        valid_utf8(bytes@) ==> res@ == decode_utf8(bytes@),
{
    String::from_utf8_lossy(bytes).into_owned()
}

/// Appends the decimal digits of `m` to `s`.
fn append_decimal(s: &mut String, m: u64)
    ensures
        final(s)@ == old(s)@ + decimal(m as nat),
    decreases m,
{
    if m >= 10 {
        append_decimal(s, m / 10);
    }
    let d: u8 = (m % 10) as u8;
    let c = (48u8 + d) as char;
    push_char(s, c);
    assert(s@ =~= old(s)@ + decimal(m as nat));
}

/// Appends `n` in decimal to `s`.
pub fn append_signed_decimal(s: &mut String, n: i32)
    ensures
        final(s)@ == old(s)@ + signed_decimal(n as int),
{
    if n < 0 {
        push_char(s, '-');
        let m: u64 = (0i64 - n as i64) as u64;
        append_decimal(s, m);
        assert(s@ =~= old(s)@ + signed_decimal(n as int));
    } else {
        append_decimal(s, n as u64);
    }
}

/// The topic that the publisher with the given id publishes on: `pub-id-`
/// followed by the id.
pub fn publisher_topic(publisher_id: &str) -> (res: String)
    ensures
        res@ == "pub-id-"@ + publisher_id@,
{
    let mut topic = String::from_str("pub-id-");
    topic.append(publisher_id);
    topic
}

/// The numbered greeting published on `topic`: `<topic> Hello from <topic>
/// #<counter>`. It begins with the topic, so that a subscriber to the topic
/// receives it.
pub fn topic_greeting(topic: &str, counter: i32) -> (res: String)
    ensures
        res@ == topic@ + " Hello from "@ + topic@ + " #"@ + signed_decimal(counter as int),
        res@.subrange(0, topic@.len() as int) == topic@,
{
    let mut line = String::from_str(topic);
    line.append(" Hello from ");
    line.append(topic);
    line.append(" #");
    append_signed_decimal(&mut line, counter);
    assert(line@.subrange(0, topic@.len() as int) =~= topic@);
    line
}

/// A digit's character reads back as the digit.
proof fn lemma_digit_char(d: nat)
    requires
        d < 10,
    ensures
        is_digit(digit_char(d)),
        digit_value(digit_char(d)) == d,
{
}

/// The decimal text of `m` is all digits, reads back as `m`, and has no
/// leading zero.
pub proof fn lemma_decimal_reads_back(m: nat)
    ensures
        decimal(m).len() >= 1,
        all_digits(decimal(m)),
        digits_value(decimal(m)) == m,
        decimal(m).len() == 1 || decimal(m)[0] != '0',
    decreases m,
{
    lemma_digit_char(m % 10);
    if m < 10 {
        assert(decimal(m).drop_last() =~= Seq::<char>::empty());
        assert(digits_value(decimal(m).drop_last()) == 0);
        assert(digits_value(decimal(m)) == digit_value(decimal(m).last()));
    } else {
        lemma_decimal_reads_back(m / 10);
        let s = decimal(m / 10);
        let t = s.push(digit_char(m % 10));
        assert(t.drop_last() =~= s);
        assert(t.last() == digit_char(m % 10));
        assert forall|i: int| 0 <= i < t.len() implies is_digit(#[trigger] t[i]) by {
            if i < s.len() {
                assert(t[i] == s[i]);
            }
        }
        assert(t[0] == s[0]);
        assert(digits_value(t) == digits_value(s) * 10 + digit_value(t.last()));
        assert(decimal(m) == t);
        assert(digits_value(t) == m);
        if s.len() == 1 {
            assert(s.drop_last() =~= Seq::<char>::empty());
            assert(digits_value(s.drop_last()) == 0);
            assert(digits_value(s) == digit_value(s.last()));
            assert(s.last() == s[0]);
        }
    }
}

/// The counter in a greeting reads back: a non-negative counter is written
/// as its plain decimal digits, which parse back to it; a negative one as a
/// minus sign followed by the digits of its magnitude.
pub proof fn lemma_signed_decimal_reads_back(n: i32)
    ensures
        n >= 0 ==> all_digits(signed_decimal(n as int)) && digits_value(signed_decimal(n as int))
            == n && parsed_u32(signed_decimal(n as int)) == Some(n as u32),
        n < 0 ==> signed_decimal(n as int)[0] == '-' && all_digits(
            signed_decimal(n as int).drop_first(),
        ) && digits_value(signed_decimal(n as int).drop_first()) == -n,
{
    if n >= 0 {
        lemma_decimal_reads_back(n as nat);
        let s = decimal(n as nat);
        assert(is_digit(s[0]));
        assert(unsigned_digits(s) == s);
    } else {
        lemma_decimal_reads_back((-n) as nat);
        assert(signed_decimal(n as int).drop_first() =~= decimal((-n) as nat));
    }
}

} // verus!
