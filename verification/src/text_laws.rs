//! What rendered and trimmed text says.

use crate::connected_addr::{ConnectedAddr, PeerSocketAddr};
use crate::text::{
    clone_names, decimal, decimal_string, digit_char, hex_digits, hex_lower,
    hex_u128, is_white_space, push_decimal, str_eq, trim, trimmed, trimmed_end, trimmed_start,
};
use vstd::prelude::*;

verus! {

/// The value of a decimal or lowercase hexadecimal digit.
pub open spec fn digit_value(c: char) -> int {
    if '0' <= c && c <= '9' {
        c as int - '0' as int
    } else {
        c as int - 'a' as int + 10
    }
}

/// Whether `c` is a digit below `base`, in lowercase.
pub open spec fn is_digit(c: char, base: int) -> bool {
    ('0' <= c && c <= '9' || 'a' <= c && c <= 'f') && digit_value(c) < base
}

/// The number that the digits stand for, most significant first.
pub open spec fn number(digits: Seq<char>, base: int) -> int {
    digits.fold_left(0int, |value: int, c: char| value * base + digit_value(c))
}

/// A further digit multiplies by the base and adds its value.
pub proof fn lemma_number_push(digits: Seq<char>, c: char, base: int)
    ensures
        number(digits.push(c), base) == number(digits, base) * base + digit_value(c),
{
    assert(digits.push(c).drop_last() =~= digits);
}

proof fn lemma_digit_char(d: nat, base: int)
    requires
        d < base <= 16,
    ensures
        digit_value(digit_char(d)) == d,
        is_digit(digit_char(d), base),
        d > 0 ==> digit_char(d) != '0',
{
}

proof fn lemma_decimal_number(n: nat)
    ensures
        number(decimal(n), 10) == n,
        decimal(n).len() > 0,
        n > 0 ==> decimal(n)[0] != '0',
        n < 10 ==> decimal(n).len() == 1,
        forall|i: int| 0 <= i < decimal(n).len() ==> is_digit(#[trigger] decimal(n)[i], 10),
    decreases n,
{
    lemma_digit_char(n % 10, 10);
    if n < 10 {
        assert(decimal(n) =~= Seq::<char>::empty().push(digit_char(n)));
        lemma_number_push(Seq::empty(), digit_char(n), 10);
    } else {
        lemma_decimal_number(n / 10);
        lemma_number_push(decimal(n / 10), digit_char(n % 10), 10);
    }
}

proof fn lemma_hex_number(n: nat, width: nat)
    ensures
        hex_digits(n, width).len() == width,
        number(hex_digits(n, width), 16) == n % vstd::arithmetic::power::pow(16, width) as nat,
        forall|i: int|
            0 <= i < width ==> is_digit(#[trigger] hex_digits(n, width)[i], 16),
    decreases width,
{
    broadcast use vstd::arithmetic::power::lemma_pow_positive;

    reveal(vstd::arithmetic::power::pow);
    if width > 0 {
        let shorter = (width - 1) as nat;
        let p = vstd::arithmetic::power::pow(16, shorter);
        lemma_hex_number(n / 16, shorter);
        lemma_digit_char(n % 16, 16);
        lemma_number_push(hex_digits(n / 16, shorter), digit_char(n % 16), 16);
        assert(p > 0);
        assert((n as int) % (16 * p) == ((n as int) / 16) % p * 16 + (n as int) % 16)
            by (nonlinear_arith)
            requires
                p > 0,
                n >= 0,
        {
            vstd::arithmetic::div_mod::lemma_breakdown(n as int, 16, p);
        }
    }
}

/// A decimal rendering reads back as the number, without leading zeros.
pub proof fn law_decimals_read_back(n: u64, out: String)
    requires
        call_ensures(decimal_string, (n,), out),
    ensures
        number(out@, 10) == n,
        forall|i: int| 0 <= i < out@.len() ==> '0' <= #[trigger] out@[i] && out@[i] <= '9',
        out@.len() > 0,
        n > 0 ==> out@[0] != '0',
        n == 0 ==> out@ == seq!['0'],
{
    lemma_decimal_number(n as nat);
    assert forall|i: int| 0 <= i < out@.len() implies '0' <= #[trigger] out@[i] && out@[i]
        <= '9' by {
        assert(is_digit(decimal(n as nat)[i], 10));
    }
}

/// A decimal rendering is appended to what stands before it.
pub proof fn law_decimals_are_appended(out: &mut String, n: u64, rendered: String)
    requires
        call_ensures(push_decimal, (out, n), ()),
        call_ensures(decimal_string, (n,), rendered),
    ensures
        final(out)@ == old(out)@ + rendered@,
{
}

/// A 128-bit number is rendered in 32 lowercase hexadecimal digits, which read back as it.
pub proof fn law_hexadecimals_read_back(n: u128, out: String)
    requires
        call_ensures(hex_u128, (n,), out),
    ensures
        out@.len() == 32,
        number(out@, 16) == n,
        forall|i: int| 0 <= i < 32 ==> is_digit(#[trigger] out@[i], 16),
{
    lemma_hex_number(n as nat, 32);
    assert(vstd::arithmetic::power::pow(16, 32) == 0x1_0000_0000_0000_0000_0000_0000_0000_0000int)
        by {
        lemma_pow_16();
    }
    assert((n as nat) % 0x1_0000_0000_0000_0000_0000_0000_0000_0000nat == n);
}

proof fn lemma_pow_16()
    ensures
        vstd::arithmetic::power::pow(16, 32)
            == 0x1_0000_0000_0000_0000_0000_0000_0000_0000int,
{
    reveal(vstd::arithmetic::power::pow);
    reveal_with_fuel(vstd::arithmetic::power::pow, 9);
    assert(vstd::arithmetic::power::pow(16, 8) == 0x1_0000_0000);
    vstd::arithmetic::power::lemma_pow_adds(16, 8, 8);
    vstd::arithmetic::power::lemma_pow_adds(16, 16, 16);
    assert(0x1_0000_0000int * 0x1_0000_0000int == 0x1_0000_0000_0000_0000int)
        by (nonlinear_arith);
    assert(vstd::arithmetic::power::pow(16, 16) == 0x1_0000_0000_0000_0000);
    assert(0x1_0000_0000_0000_0000int * 0x1_0000_0000_0000_0000int
        == 0x1_0000_0000_0000_0000_0000_0000_0000_0000int) by (nonlinear_arith);
}

/// Whether `text` shows each byte in two lowercase hexadecimal digits, in order.
pub open spec fn is_hexadecimal(text: Seq<char>, bytes: Seq<u8>) -> bool {
    &&& text.len() == 2 * bytes.len()
    &&& forall|i: int|
        #![trigger bytes[i]]
        0 <= i < bytes.len() ==> {
            &&& is_digit(text[2 * i], 16)
            &&& is_digit(text[2 * i + 1], 16)
            &&& 16 * digit_value(text[2 * i]) + digit_value(text[2 * i + 1]) == bytes[i]
        }
}

/// The lowercase hexadecimal rendering shows each byte.
pub proof fn lemma_hex_lower(bytes: Seq<u8>)
    ensures
        is_hexadecimal(hex_lower(bytes), bytes),
{
    assert forall|i: int|
        #![trigger bytes[i]]
        0 <= i < bytes.len() implies {
        let text = hex_lower(bytes);
        &&& is_digit(text[2 * i], 16)
        &&& is_digit(text[2 * i + 1], 16)
        &&& 16 * digit_value(text[2 * i]) + digit_value(text[2 * i + 1]) == bytes[i]
    } by {
        lemma_digit_char((bytes[i] / 16) as nat, 16);
        lemma_digit_char((bytes[i] % 16) as nat, 16);
        assert((2 * i) / 2 == i && (2 * i) % 2 == 0);
        assert((2 * i + 1) / 2 == i && (2 * i + 1) % 2 == 1);
    }
}

/// Whether `c` is white space: a tab, a line feed, a vertical tab, a form feed, a carriage
/// return, a space, or one of the further spaces and separators of Unicode.
pub open spec fn is_white(c: char) -> bool {
    let code = c as int;
    ||| 9 <= code <= 13
    ||| code == 32
    ||| code == 133
    ||| code == 160
    ||| code == 5_760
    ||| 8_192 <= code <= 8_202
    ||| code == 8_232
    ||| code == 8_233
    ||| code == 8_239
    ||| code == 8_287
    ||| code == 12_288
}

/// Whether `kept` is what is left of `text` without the white space around it.
pub open spec fn is_core(text: Seq<char>, kept: Seq<char>) -> bool {
    &&& exists|from: int|
        {
            &&& 0 <= from <= from + kept.len() <= text.len()
            &&& #[trigger] text.subrange(from, from + kept.len()) == kept
            &&& forall|k: int|
                0 <= k < from || from + kept.len() <= k < text.len() ==> is_white(
                    #[trigger] text[k],
                )
        }
    &&& kept.len() > 0 ==> !is_white(kept.first()) && !is_white(kept.last())
}

proof fn lemma_white(c: char)
    ensures
        is_white(c) == is_white_space(c),
{
}

proof fn lemma_trimmed_start(s: Seq<char>) -> (from: int)
    ensures
        0 <= from <= s.len(),
        trimmed_start(s) == s.skip(from),
        forall|k: int| 0 <= k < from ==> is_white(#[trigger] s[k]),
        from < s.len() ==> !is_white(s[from]),
    decreases s.len(),
{
    if s.len() > 0 && is_white_space(s.first()) {
        let rest = s.drop_first();
        let from = lemma_trimmed_start(rest);
        assert(rest.skip(from) =~= s.skip(from + 1));
        assert forall|k: int| 0 <= k < from + 1 implies is_white(#[trigger] s[k]) by {
            if k > 0 {
                assert(s[k] == rest[k - 1]);
            } else {
                lemma_white(s[0]);
            }
        }
        if from < rest.len() {
            assert(s[from + 1] == rest[from]);
        }
        from + 1
    } else {
        assert(s.skip(0) =~= s);
        0
    }
}

proof fn lemma_trimmed_end(s: Seq<char>) -> (upto: int)
    ensures
        0 <= upto <= s.len(),
        trimmed_end(s) == s.take(upto),
        forall|k: int| upto <= k < s.len() ==> is_white(#[trigger] s[k]),
        upto > 0 ==> !is_white(s[upto - 1]),
    decreases s.len(),
{
    if s.len() > 0 && is_white_space(s.last()) {
        let rest = s.drop_last();
        let upto = lemma_trimmed_end(rest);
        assert(rest.take(upto) =~= s.take(upto));
        assert forall|k: int| upto <= k < s.len() implies is_white(#[trigger] s[k]) by {
            if k < rest.len() {
                assert(s[k] == rest[k]);
            } else {
                lemma_white(s[k]);
            }
        }
        upto
    } else {
        assert(s.take(s.len() as int) =~= s);
        s.len() as int
    }
}

/// What trimming leaves is a part of the text. Only white space stands around that part, and it
/// neither starts nor ends with any.
pub proof fn law_trimming_removes_white_space_around(text: &str, out: String)
    requires
        call_ensures(trim, (text,), out),
    ensures
        is_core(text@, out@),
        out@ == trimmed(text@),
{
    let s = text@;
    let from = lemma_trimmed_start(s);
    let tail = s.skip(from);
    let upto = lemma_trimmed_end(tail);
    let kept = tail.take(upto);
    assert(s.subrange(from, from + kept.len()) =~= kept);
    assert forall|k: int| 0 <= k < from || from + kept.len() <= k < s.len() implies is_white(
        #[trigger] s[k],
    ) by {
        if k >= from {
            assert(s[k] == tail[k - from]);
        }
    }
    if kept.len() > 0 {
        assert(kept.first() == s[from]);
        assert(kept.last() == tail[upto - 1]);
    }
}

/// Names are compared by their characters, and copied in order.
pub proof fn law_names_are_compared_by_their_characters(
    a: &str,
    b: &str,
    same: bool,
    names: &Vec<String>,
    copy: Vec<String>,
)
    requires
        call_ensures(str_eq, (a, b), same),
        call_ensures(clone_names, (names,), copy),
    ensures
        same <==> a@ == b@,
        copy@ == names@,
{
}

/// The label of a connection shows whether it is isolated, or else the kind and the port of the
/// peer's address, and nothing more.
pub proof fn law_labels_show_kind_and_port(addr: &ConnectedAddr, label: String, rendered: String)
    requires
        call_ensures(ConnectedAddr::get_transient_addr_label, (addr,), label),
        addr matches ConnectedAddr::OutboundDirect(PeerSocketAddr::V4 { port, .. })
            ==> call_ensures(decimal_string, (port as u64,), rendered),
        addr matches ConnectedAddr::OutboundDirect(PeerSocketAddr::V6 { port, .. })
            ==> call_ensures(decimal_string, (port as u64,), rendered),
    ensures
        match addr {
            ConnectedAddr::Isolated => label@ == "isolated"@,
            ConnectedAddr::OutboundDirect(PeerSocketAddr::V4 { .. }) => label@ == "v4redacted:"@
                + rendered@,
            ConnectedAddr::OutboundDirect(PeerSocketAddr::V6 { .. }) => label@ == "v6redacted:"@
                + rendered@,
        },
{
}

/// The label of a connection in trace events shows whether it is isolated, or else the whole
/// address of the peer: four octets and the port, or the address in brackets and the port.
pub proof fn law_tracing_labels_show_the_address(
    addr: &ConnectedAddr,
    label: String,
    first: String,
    second: String,
    third: String,
    fourth: String,
    rendered: String,
)
    requires
        call_ensures(ConnectedAddr::get_transient_addr_label_for_tracing, (addr,), label),
        addr matches ConnectedAddr::OutboundDirect(PeerSocketAddr::V4 { octets, port }) ==> {
            &&& call_ensures(decimal_string, (octets.0 as u64,), first)
            &&& call_ensures(decimal_string, (octets.1 as u64,), second)
            &&& call_ensures(decimal_string, (octets.2 as u64,), third)
            &&& call_ensures(decimal_string, (octets.3 as u64,), fourth)
            &&& call_ensures(decimal_string, (port as u64,), rendered)
        },
        addr matches ConnectedAddr::OutboundDirect(PeerSocketAddr::V6 { port, .. })
            ==> call_ensures(decimal_string, (port as u64,), rendered),
    ensures
        match addr {
            ConnectedAddr::Isolated => label@ == "isolated"@,
            ConnectedAddr::OutboundDirect(PeerSocketAddr::V4 { .. }) => label@ == first@ + seq!['.']
                + second@ + seq!['.'] + third@ + seq!['.'] + fourth@ + seq![':'] + rendered@,
            ConnectedAddr::OutboundDirect(PeerSocketAddr::V6 { address, .. }) => label@ == seq!['[']
                + address@ + seq![']', ':'] + rendered@,
        },
{
    match addr {
        ConnectedAddr::OutboundDirect(PeerSocketAddr::V4 { .. }) => {
            assert(label@ =~= first@ + seq!['.'] + second@ + seq!['.'] + third@ + seq!['.']
                + fourth@ + seq![':'] + rendered@);
        },
        ConnectedAddr::OutboundDirect(PeerSocketAddr::V6 { address, .. }) => {
            assert(label@ =~= seq!['['] + address@ + seq![']', ':'] + rendered@);
        },
        ConnectedAddr::Isolated => {},
    }
}

}
