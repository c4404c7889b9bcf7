//! Small text builders: decimal numbers, `host:port` pairs and string
//! comparison with literals.
use vstd::prelude::*;
use vstd::string::StringExecFns;

verus! {

/// The character of a decimal digit.
pub open spec fn digit_char(d: nat) -> char
    recommends
        d < 10,
{
    if d == 0 {
        '0'
    } else if d == 1 {
        '1'
    } else if d == 2 {
        '2'
    } else if d == 3 {
        '3'
    } else if d == 4 {
        '4'
    } else if d == 5 {
        '5'
    } else if d == 6 {
        '6'
    } else if d == 7 {
        '7'
    } else if d == 8 {
        '8'
    } else {
        '9'
    }
}

/// The decimal notation of `n`, without leading zeros.
pub open spec fn decimal(n: nat) -> Seq<char>
    decreases n,
{
    if n < 10 {
        seq![digit_char(n)]
    } else {
        decimal(n / 10).push(digit_char(n % 10))
    }
}

/// `host:port`, the port in decimal.
pub open spec fn host_port(host: Seq<char>, port: u16) -> Seq<char> {
    host + seq![':'] + decimal(port as nat)
}

/// Whether every character of the text is an ASCII decimal digit.
pub open spec fn is_decimal_digits(text: Seq<char>) -> bool {
    forall|i: int| 0 <= i < text.len() ==> 0x30 <= #[trigger] (text[i] as u32) <= 0x39
}

/// The number that a text of decimal digits is read as, most significant
/// digit first: each character stands for its code point minus `'0'`.
pub open spec fn decimal_value(text: Seq<char>) -> int
    decreases text.len(),
{
    if text.len() == 0 {
        0
    } else {
        decimal_value(text.drop_last()) * 10 + ((text.last() as u32) - 0x30)
    }
}

proof fn lemma_digit_char_code(d: nat)
    requires
        d < 10,
    ensures
        (digit_char(d) as u32) == 0x30 + d,
{
}

/// Law: the decimal notation of a number is made of the characters `0` to
/// `9`, has no superfluous leading zero, and reads back as the number.
pub proof fn law_decimal_reads_back(n: nat)
    ensures
        decimal(n).len() > 0,
        is_decimal_digits(decimal(n)),
        decimal(n).len() == 1 || decimal(n)[0] != '0',
        decimal_value(decimal(n)) == n,
    decreases n,
{
    if n < 10 {
        lemma_digit_char_code(n);
        let s = decimal(n);
        assert(s.drop_last() =~= Seq::<char>::empty());
        assert(decimal_value(s.drop_last()) == 0);
        assert(s.last() == digit_char(n));
        assert(decimal_value(s) == decimal_value(s.drop_last()) * 10 + ((s.last() as u32) - 0x30));
    } else {
        law_decimal_reads_back(n / 10);
        lemma_digit_char_code(n % 10);
        let p = decimal(n / 10);
        let s = decimal(n);
        assert(s == p.push(digit_char(n % 10)));
        assert(s.drop_last() =~= p);
        assert(s.last() == digit_char(n % 10));
        assert(decimal_value(s) == decimal_value(s.drop_last()) * 10 + ((s.last() as u32) - 0x30));
        assert(decimal_value(s) == (n / 10) * 10 + n % 10);
        assert forall|i: int| 0 <= i < s.len() implies 0x30 <= #[trigger] (s[i] as u32) <= 0x39 by {
            if i < p.len() {
                assert(s[i] == p[i]);
            }
        }
        assert(s[0] == p[0]);
        if p.len() == 1 {
            assert(n / 10 < 10) by {
                if n / 10 >= 10 {
                    let q = n / 10;
                    assert(decimal(q) == decimal(q / 10).push(digit_char(q % 10)));
                    law_decimal_reads_back(q / 10);
                }
            }
            assert(n / 10 >= 1);
            lemma_digit_char_code(n / 10);
            assert(p[0] == digit_char(n / 10));
        }
    }
}

/// Law: `host:port` is the host, a colon, and text of decimal digits that
/// reads back as the port.
pub proof fn law_host_port_parts(host: Seq<char>, port: u16)
    ensures
        host_port(host, port).subrange(0, host.len() as int) == host,
        host_port(host, port)[host.len() as int] == ':',
        is_decimal_digits(host_port(host, port).subrange(host.len() + 1int, host_port(host, port).len() as int)),
        decimal_value(host_port(host, port).subrange(host.len() + 1int, host_port(host, port).len() as int)) == port,
{
    law_decimal_reads_back(port as nat);
    let hp = host_port(host, port);
    assert(hp.subrange(0, host.len() as int) =~= host);
    assert(hp.subrange(host.len() + 1int, hp.len() as int) =~= decimal(port as nat));
}

fn digit_str(d: u16) -> (s: &'static str)
    requires
        d < 10,
    ensures
        s@ == seq![digit_char(d as nat)],
{
    if d == 0 {
        proof { reveal_strlit("0"); }
        "0"
    } else if d == 1 {
        proof { reveal_strlit("1"); }
        "1"
    } else if d == 2 {
        proof { reveal_strlit("2"); }
        "2"
    } else if d == 3 {
        proof { reveal_strlit("3"); }
        "3"
    } else if d == 4 {
        proof { reveal_strlit("4"); }
        "4"
    } else if d == 5 {
        proof { reveal_strlit("5"); }
        "5"
    } else if d == 6 {
        proof { reveal_strlit("6"); }
        "6"
    } else if d == 7 {
        proof { reveal_strlit("7"); }
        "7"
    } else if d == 8 {
        proof { reveal_strlit("8"); }
        "8"
    } else {
        proof { reveal_strlit("9"); }
        "9"
    }
}

/// The decimal notation of a port number.
pub fn decimal_string(n: u16) -> (s: String)
    ensures
        s@ == decimal(n as nat),
    decreases n,
{
    if n < 10 {
        String::from_str(digit_str(n))
    } else {
        let mut s = decimal_string(n / 10);
        s.append(digit_str(n % 10));
        s
    }
}

/// Joins a host and a port as `host:port`.
pub fn join_host_port(host: &str, port: u16) -> (s: String)
    ensures
        s@ == host_port(host@, port),
{
    let mut s = String::from_str(host);
    let colon: &str = ":";
    proof { reveal_strlit(":"); }
    s.append(colon);
    let digits = decimal_string(port);
    s.append(digits.as_str());
    s
}

/// Whether two strings hold the same text.
pub fn same_text(a: &str, b: &str) -> (same: bool)
    ensures
        same == (a@ == b@),
{
    let x = String::from_str(a);
    let y = String::from_str(b);
    x == y
}

} // verus!
