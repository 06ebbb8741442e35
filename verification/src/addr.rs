//! The `ip/prefix` address codec: an exact grammar for dotted-quad IPv4
//! addresses with a prefix length, a verified parser and renderer, and the
//! round-trip laws connecting them. The address part has one canonical
//! spelling per value, as standard address parsing has; the prefix part
//! accepts what standard integer parsing accepts — an optional plus sign
//! and leading zeros. Addresses are modeled as IPv4 only: the kernel
//! add call this feeds is IPv4-specific, so an IPv6 literal is rejected
//! as `InvalidAddress`.

use vstd::prelude::*;
use crate::text::{dec_digits, digit_char, join_chars, u64_to_string};
use crate::NetError;

verus! {

/// A decimal digit.
pub open spec fn is_digit(c: char) -> bool {
    '0' <= c && c <= '9'
}

/// The numeric value of a decimal digit character.
pub open spec fn digit_val(c: char) -> nat
    recommends
        is_digit(c),
{
    (c as int - '0' as int) as nat
}

/// Every character of `s` is a decimal digit.
pub open spec fn all_digits(s: Seq<char>) -> bool {
    forall|i: int| 0 <= i < s.len() ==> is_digit(s[i])
}

/// The numeric value of a digit string, most significant digit first.
pub open spec fn dec_val(s: Seq<char>) -> nat
    decreases s.len(),
{
    if s.len() == 0 {
        0
    } else {
        dec_val(s.drop_last()) * 10 + digit_val(s.last())
    }
}

/// The exact grammar of one octet (and of a prefix length): one to three
/// decimal digits, no leading zero, value at most 255.
pub open spec fn is_octet_str(s: Seq<char>) -> bool {
    1 <= s.len() <= 3 && all_digits(s) && (s.len() == 1 || s[0] != '0') && dec_val(s) <= 255
}

/// The position of the first occurrence of `sep` in `s`.
pub open spec fn find_char(s: Seq<char>, sep: char) -> Option<int>
    decreases s.len(),
{
    if s.len() == 0 {
        None
    } else if s[0] == sep {
        Some(0int)
    } else {
        match find_char(s.drop_first(), sep) {
            Some(i) => Some(i + 1),
            None => None,
        }
    }
}

/// A found separator position lies inside the string, holds the separator,
/// and nothing before it is the separator; absence means no character is
/// the separator.
pub proof fn lemma_find_char_props(s: Seq<char>, sep: char)
    ensures
        match find_char(s, sep) {
            Some(i) => 0 <= i < s.len() && s[i] == sep && forall|j: int|
                0 <= j < i ==> s[j] != sep,
            None => forall|j: int| 0 <= j < s.len() ==> s[j] != sep,
        },
    decreases s.len(),
{
    if s.len() > 0 && s[0] != sep {
        lemma_find_char_props(s.drop_first(), sep);
        match find_char(s.drop_first(), sep) {
            Some(i) => {
                assert(s.drop_first()[i] == s[i + 1]);
                assert forall|j: int| 0 <= j < i + 1 implies s[j] != sep by {
                    if j > 0 {
                        assert(s.drop_first()[j - 1] == s[j]);
                    }
                }
            },
            None => {
                assert forall|j: int| 0 <= j < s.len() implies s[j] != sep by {
                    if j > 0 {
                        assert(s.drop_first()[j - 1] == s[j]);
                    }
                }
            },
        }
    }
}

/// The segments of `s` between occurrences of `sep`, in order; a string
/// without the separator is one segment.
pub open spec fn split_on(s: Seq<char>, sep: char) -> Seq<Seq<char>>
    decreases s.len(),
{
    match find_char(s, sep) {
        None => seq![s],
        Some(i) => if 0 <= i < s.len() {
            seq![s.take(i)] + split_on(s.skip(i + 1), sep)
        } else {
            seq![s]
        },
    }
}

fn find_char_str(s: &str, sep: char) -> (o: Option<usize>)
    ensures
        match o {
            Some(i) => find_char(s@, sep) == Some(i as int),
            None => find_char(s@, sep) is None,
        },
    decreases s@.len(),
{
    let n = s.unicode_len();
    if n == 0 {
        None
    } else if s.get_char(0) == sep {
        Some(0)
    } else {
        let rest = s.substring_char(1, n);
        proof {
            assert(rest@ =~= s@.drop_first());
        }
        match find_char_str(rest, sep) {
            Some(i) => {
                proof {
                    lemma_find_char_props(rest@, sep);
                }
                Some(i + 1)
            },
            None => None,
        }
    }
}

/// Splits a string at every occurrence of `sep`.
pub fn split_str(s: &str, sep: char) -> (parts: Vec<String>)
    ensures
        parts.deep_view() == split_on(s@, sep),
    decreases s@.len(),
{
    let n = s.unicode_len();
    match find_char_str(s, sep) {
        None => {
            let mut parts: Vec<String> = Vec::new();
            parts.push(s.to_owned());
            proof {
                assert(parts.deep_view() =~= split_on(s@, sep));
            }
            parts
        },
        Some(i) => {
            proof {
                lemma_find_char_props(s@, sep);
            }
            let head = s.substring_char(0, i);
            let tail = s.substring_char(i + 1, n);
            proof {
                assert(head@ =~= s@.take(i as int));
                assert(tail@ =~= s@.skip(i + 1));
            }
            let mut parts = split_str(tail, sep);
            parts.insert(0, head.to_owned());
            proof {
                assert(parts.deep_view() =~= split_on(s@, sep));
            }
            parts
        },
    }
}

/// Parses one octet (or prefix length): the value of a string of the exact
/// octet grammar, nothing otherwise.
pub open spec fn parse_octet_spec(s: Seq<char>) -> Option<u8> {
    if is_octet_str(s) {
        Some(dec_val(s) as u8)
    } else {
        None
    }
}

/// Parses one octet of the exact grammar; anything else is rejected.
pub fn parse_octet(s: &str) -> (o: Option<u8>)
    ensures
        o == parse_octet_spec(s@),
{
    let n = s.unicode_len();
    if n == 0 || n > 3 {
        return None;
    }
    if n > 1 && s.get_char(0) == '0' {
        return None;
    }
    let mut val: u32 = 0;
    let mut i: usize = 0;
    while i < n
        invariant
            n == s@.len(),
            1 <= n <= 3,
            i <= n,
            forall|j: int| 0 <= j < i ==> is_digit(s@[j]),
            val == dec_val(s@.take(i as int)),
            i == 0 ==> val == 0,
            i == 1 ==> val <= 9,
            i == 2 ==> val <= 99,
            i == 3 ==> val <= 999,
        decreases n - i,
    {
        let c = s.get_char(i);
        if c < '0' || c > '9' {
            proof {
                assert(!is_digit(s@[i as int]));
            }
            return None;
        }
        proof {
            assert(s@.take(i + 1).drop_last() =~= s@.take(i as int));
            assert(s@.take(i + 1).last() == s@[i as int]);
        }
        val = val * 10 + (c as u32 - 48);
        i += 1;
    }
    proof {
        assert(s@.take(n as int) =~= s@);
    }
    if val > 255 {
        None
    } else {
        Some(val as u8)
    }
}

/// The digits of a prefix-length string, after an optional leading plus
/// sign.
pub open spec fn prefix_digits(s: Seq<char>) -> Seq<char> {
    if s.len() > 0 && s[0] == '+' {
        s.drop_first()
    } else {
        s
    }
}

/// The grammar of a prefix length, as standard integer parsing accepts
/// it: an optional leading plus sign, then at least one decimal digit,
/// leading zeros allowed, value at most 255.
pub open spec fn is_prefix_str(s: Seq<char>) -> bool {
    prefix_digits(s).len() >= 1 && all_digits(prefix_digits(s)) && dec_val(prefix_digits(s))
        <= 255
}

/// Parses a prefix length: the value of a string of the prefix grammar,
/// nothing otherwise.
pub open spec fn parse_prefix_spec(s: Seq<char>) -> Option<u8> {
    if is_prefix_str(s) {
        Some(dec_val(prefix_digits(s)) as u8)
    } else {
        None
    }
}

/// Parses a prefix length of the prefix grammar; anything else is
/// rejected.
pub fn parse_prefix(s: &str) -> (o: Option<u8>)
    ensures
        o == parse_prefix_spec(s@),
{
    let n = s.unicode_len();
    let start: usize = if n > 0 && s.get_char(0) == '+' {
        1
    } else {
        0
    };
    let ghost d = prefix_digits(s@);
    proof {
        assert(d =~= s@.skip(start as int));
    }
    if start == n {
        proof {
            assert(d.len() == 0);
        }
        return None;
    }
    // a value of 256 marks a running value already beyond the bound
    let mut val: u32 = 0;
    let mut i: usize = start;
    while i < n
        invariant
            start <= i <= n,
            start < n,
            n == s@.len(),
            d == prefix_digits(s@),
            d =~= s@.skip(start as int),
            d.len() == n - start,
            forall|j: int| 0 <= j < i - start ==> is_digit(d[j]),
            val <= 256,
            val <= 255 ==> val == dec_val(d.take(i - start)),
            val == 256 ==> dec_val(d.take(i - start)) > 255,
        decreases n - i,
    {
        let c = s.get_char(i);
        proof {
            assert(d[i - start] == s@[i as int]);
        }
        if c < '0' || c > '9' {
            proof {
                assert(!is_digit(d[i - start]));
            }
            return None;
        }
        proof {
            assert(d.take(i - start + 1).drop_last() =~= d.take(i - start));
            assert(d.take(i - start + 1).last() == d[i - start]);
        }
        let dv = c as u32 - 48;
        if val <= 255 {
            if val * 10 + dv > 255 {
                val = 256;
            } else {
                val = val * 10 + dv;
            }
        }
        i += 1;
    }
    proof {
        assert(d.take(n - start) =~= d);
    }
    if val > 255 {
        None
    } else {
        Some(val as u8)
    }
}

/// A parsed `ip/prefix` address: four dotted-quad octets and a prefix
/// length.
#[derive(Debug, Clone, Copy, PartialEq, Eq, Structural)]
pub struct IpPrefix {
    pub a: u8,
    pub b: u8,
    pub c: u8,
    pub d: u8,
    pub prefix: u8,
}

/// Parses a dotted-quad IPv4 address: exactly four octets of the exact
/// grammar, separated by dots.
pub open spec fn parse_ipv4_spec(s: Seq<char>) -> Option<(u8, u8, u8, u8)> {
    let parts = split_on(s, '.');
    if parts.len() == 4 {
        match (
            parse_octet_spec(parts[0]),
            parse_octet_spec(parts[1]),
            parse_octet_spec(parts[2]),
            parse_octet_spec(parts[3]),
        ) {
            (Some(a), Some(b), Some(c), Some(d)) => Some((a, b, c, d)),
            _ => None,
        }
    } else {
        None
    }
}

/// Parses an `ip/prefix` string: exactly two parts separated by one slash,
/// a dotted-quad address and a prefix length.
pub open spec fn parse_addr_spec(s: Seq<char>) -> Option<IpPrefix> {
    let parts = split_on(s, '/');
    if parts.len() == 2 {
        match (parse_ipv4_spec(parts[0]), parse_prefix_spec(parts[1])) {
            (Some((a, b, c, d)), Some(prefix)) => Some(IpPrefix { a, b, c, d, prefix }),
            _ => None,
        }
    } else {
        None
    }
}

/// Parses a dotted-quad IPv4 address; anything else is rejected.
pub fn parse_ipv4(s: &str) -> (o: Option<(u8, u8, u8, u8)>)
    ensures
        o == parse_ipv4_spec(s@),
{
    let parts = split_str(s, '.');
    if parts.len() != 4 {
        return None;
    }
    proof {
        assert(parts@[0]@ == split_on(s@, '.')[0]);
        assert(parts@[1]@ == split_on(s@, '.')[1]);
        assert(parts@[2]@ == split_on(s@, '.')[2]);
        assert(parts@[3]@ == split_on(s@, '.')[3]);
    }
    let oa = parse_octet(parts[0].as_str());
    let ob = parse_octet(parts[1].as_str());
    let oc = parse_octet(parts[2].as_str());
    let od = parse_octet(parts[3].as_str());
    if let (Some(a), Some(b), Some(c), Some(d)) = (oa, ob, oc, od) {
        Some((a, b, c, d))
    } else {
        None
    }
}

/// Parses an `ip/prefix` string; a string outside the exact grammar fails
/// with `InvalidAddress`.
pub fn parse_ip_prefix(s: &str) -> (r: Result<IpPrefix, NetError>)
    ensures
        match parse_addr_spec(s@) {
            Some(p) => r == Ok::<IpPrefix, NetError>(p),
            None => r == Err::<IpPrefix, NetError>(NetError::InvalidAddress),
        },
{
    let parts = split_str(s, '/');
    if parts.len() != 2 {
        return Err(NetError::InvalidAddress);
    }
    proof {
        assert(parts@[0]@ == split_on(s@, '/')[0]);
        assert(parts@[1]@ == split_on(s@, '/')[1]);
    }
    let oaddr = parse_ipv4(parts[0].as_str());
    let oprefix = parse_prefix(parts[1].as_str());
    if let (Some((a, b, c, d)), Some(prefix)) = (oaddr, oprefix) {
        Ok(IpPrefix { a, b, c, d, prefix })
    } else {
        Err(NetError::InvalidAddress)
    }
}

/// The canonical rendering of a dotted-quad IPv4 address.
pub open spec fn ipv4_chars(a: u8, b: u8, c: u8, d: u8) -> Seq<char> {
    dec_digits(a as nat) + "."@ + dec_digits(b as nat) + "."@ + dec_digits(c as nat) + "."@
        + dec_digits(d as nat)
}

/// The canonical rendering of an `ip/prefix` address.
pub open spec fn ip_prefix_chars(p: IpPrefix) -> Seq<char> {
    ipv4_chars(p.a, p.b, p.c, p.d) + "/"@ + dec_digits(p.prefix as nat)
}

/// Renders a dotted-quad IPv4 address canonically.
pub fn format_ipv4(a: u8, b: u8, c: u8, d: u8) -> (r: String)
    ensures
        r@ == ipv4_chars(a, b, c, d),
{
    let mut r = u64_to_string(a as u64);
    r.append(".");
    let sb = u64_to_string(b as u64);
    r.append(sb.as_str());
    r.append(".");
    let sc = u64_to_string(c as u64);
    r.append(sc.as_str());
    r.append(".");
    let sd = u64_to_string(d as u64);
    r.append(sd.as_str());
    proof {
        assert(r@ =~= ipv4_chars(a, b, c, d));
    }
    r
}

/// Renders an `ip/prefix` address canonically.
pub fn format_ip_prefix(p: &IpPrefix) -> (r: String)
    ensures
        r@ == ip_prefix_chars(*p),
{
    let mut r = format_ipv4(p.a, p.b, p.c, p.d);
    r.append("/");
    let sp = u64_to_string(p.prefix as u64);
    r.append(sp.as_str());
    proof {
        assert(r@ =~= ip_prefix_chars(*p));
    }
    r
}

proof fn lemma_digit_char_val(d: nat)
    requires
        d < 10,
    ensures
        is_digit(digit_char(d)),
        digit_val(digit_char(d)) == d,
        d >= 1 ==> digit_char(d) != '0',
{
}

proof fn lemma_digit_char_inverse(c: char)
    requires
        is_digit(c),
    ensures
        digit_char(digit_val(c)) == c,
{
    if c == '0' {
    } else if c == '1' {
    } else if c == '2' {
    } else if c == '3' {
    } else if c == '4' {
    } else if c == '5' {
    } else if c == '6' {
    } else if c == '7' {
    } else if c == '8' {
    } else {
        assert(c == '9');
    }
}

/// The decimal rendering of a number is made of digits, has no leading
/// zero, and evaluates back to the number; a number up to 255 renders in
/// at most three digits.
pub proof fn lemma_dec_digits_props(n: nat)
    ensures
        all_digits(dec_digits(n)),
        dec_val(dec_digits(n)) == n,
        dec_digits(n).len() >= 1,
        dec_digits(n)[0] != '0' || n < 10,
        n < 10 ==> dec_digits(n).len() == 1,
        n < 100 ==> dec_digits(n).len() <= 2,
        n < 1000 ==> dec_digits(n).len() <= 3,
    decreases n,
{
    if n < 10 {
        lemma_digit_char_val(n);
        let w = dec_digits(n);
        assert(w =~= seq![digit_char(n)]);
        assert(w.drop_last() =~= Seq::<char>::empty());
        assert(dec_val(Seq::<char>::empty()) == 0);
        assert(dec_val(w) == digit_val(digit_char(n)));
    } else {
        lemma_dec_digits_props(n / 10);
        lemma_digit_char_val(n % 10);
        let a = dec_digits(n / 10);
        let w = dec_digits(n);
        assert(w == a + seq![digit_char(n % 10)]);
        assert(w.drop_last() =~= a);
        assert(w.last() == digit_char(n % 10));
        assert(dec_val(w) == dec_val(a) * 10 + digit_val(digit_char(n % 10)));
        assert(n / 10 * 10 + n % 10 == n);
        assert(w[0] == a[0]);
        if n / 10 < 10 {
            assert(a.len() == 1);
            assert(a[0] == digit_char(n / 10));
            assert(n / 10 >= 1);
            assert(a[0] != '0') by {
                lemma_digit_char_val(n / 10);
            }
        }
        assert(all_digits(w)) by {
            assert(forall|i: int| 0 <= i < a.len() ==> w[i] == a[i]);
        }
    }
}

/// A string of the exact octet grammar is the decimal rendering of its own
/// value: the grammar is canonical.
pub proof fn lemma_octet_canonical(s: Seq<char>)
    requires
        is_octet_str(s),
    ensures
        dec_digits(dec_val(s)) == s,
{
    let v = dec_val(s);
    if s.len() == 1 {
        let ca = s[0];
        assert(s.drop_last() =~= Seq::<char>::empty());
        assert(dec_val(Seq::<char>::empty()) == 0);
        assert(s.last() == ca);
        assert(v == digit_val(ca));
        assert(v < 10);
        lemma_digit_char_inverse(ca);
        assert(dec_digits(v) =~= s);
    } else if s.len() == 2 {
        let ca = s[0];
        let cb = s[1];
        let da = digit_val(ca);
        let db = digit_val(cb);
        assert(s.drop_last() =~= seq![ca]);
        assert(seq![ca].drop_last() =~= Seq::<char>::empty());
        assert(dec_val(Seq::<char>::empty()) == 0);
        assert(dec_val(seq![ca]) == da);
        assert(s.last() == cb);
        assert(v == da * 10 + db);
        assert(da >= 1);
        assert(db < 10);
        assert(v >= 10);
        assert(v / 10 == da && v % 10 == db) by (nonlinear_arith)
            requires
                v == da * 10 + db,
                db < 10,
        ;
        lemma_digit_char_inverse(ca);
        lemma_digit_char_inverse(cb);
        assert(da < 10);
        assert(dec_digits(da) =~= seq![ca]);
        assert(dec_digits(v) == dec_digits(da) + seq![digit_char(db)]);
        assert(dec_digits(v) =~= s);
    } else {
        let ca = s[0];
        let cb = s[1];
        let cc = s[2];
        let da = digit_val(ca);
        let db = digit_val(cb);
        let dc = digit_val(cc);
        assert(s.drop_last() =~= seq![ca, cb]);
        assert(seq![ca, cb].drop_last() =~= seq![ca]);
        assert(seq![ca].drop_last() =~= Seq::<char>::empty());
        assert(dec_val(Seq::<char>::empty()) == 0);
        assert(dec_val(seq![ca]) == da);
        assert(dec_val(seq![ca, cb]) == da * 10 + db);
        assert(s.last() == cc);
        let q = da * 10 + db;
        assert(v == q * 10 + dc);
        assert(da >= 1);
        assert(db < 10 && dc < 10);
        assert(q >= 10);
        assert(v >= 100);
        assert(v / 10 == q && v % 10 == dc) by (nonlinear_arith)
            requires
                v == q * 10 + dc,
                dc < 10,
        ;
        assert(q / 10 == da && q % 10 == db) by (nonlinear_arith)
            requires
                q == da * 10 + db,
                db < 10,
        ;
        lemma_digit_char_inverse(ca);
        lemma_digit_char_inverse(cb);
        lemma_digit_char_inverse(cc);
        assert(da < 10);
        assert(dec_digits(da) =~= seq![ca]);
        assert(dec_digits(q) == dec_digits(da) + seq![digit_char(db)]);
        assert(dec_digits(q) =~= seq![ca, cb]);
        assert(dec_digits(v) == dec_digits(q) + seq![digit_char(dc)]);
        assert(dec_digits(v) =~= s);
    }
}

/// No character of `s` is `c`.
pub open spec fn no_char(s: Seq<char>, c: char) -> bool {
    forall|i: int| 0 <= i < s.len() ==> s[i] != c
}

proof fn lemma_find_after_clean(x: Seq<char>, y: Seq<char>, sep: char)
    requires
        no_char(x, sep),
    ensures
        find_char(x + seq![sep] + y, sep) == Some(x.len() as int),
    decreases x.len(),
{
    let s = x + seq![sep] + y;
    if x.len() == 0 {
        assert(s[0] == sep);
    } else {
        assert(s[0] == x[0]);
        assert(x[0] != sep);
        assert(s.drop_first() =~= x.drop_first() + seq![sep] + y);
        assert(no_char(x.drop_first(), sep)) by {
            assert(forall|i: int|
                0 <= i < x.drop_first().len() ==> x.drop_first()[i] == x[i + 1]);
        }
        lemma_find_after_clean(x.drop_first(), y, sep);
    }
}

proof fn lemma_find_clean(y: Seq<char>, sep: char)
    requires
        no_char(y, sep),
    ensures
        find_char(y, sep) is None,
{
    lemma_find_char_props(y, sep);
    if find_char(y, sep) is Some {
        let i = find_char(y, sep)->Some_0;
        assert(y[i] == sep);
    }
}

/// Splitting at a separator undoes joining with it: a separator-free head
/// contributes one segment.
pub proof fn lemma_split_after_clean(x: Seq<char>, y: Seq<char>, sep: char)
    requires
        no_char(x, sep),
    ensures
        split_on(x + seq![sep] + y, sep) == seq![x] + split_on(y, sep),
{
    let s = x + seq![sep] + y;
    lemma_find_after_clean(x, y, sep);
    assert(s.take(x.len() as int) =~= x);
    assert(s.skip(x.len() as int + 1) =~= y);
    assert(split_on(s, sep) == seq![x] + split_on(y, sep));
}

/// A separator-free string is one segment.
pub proof fn lemma_split_clean(y: Seq<char>, sep: char)
    requires
        no_char(y, sep),
    ensures
        split_on(y, sep) == seq![y],
{
    lemma_find_clean(y, sep);
}

/// A string is the join of its segments with the separator, and no segment
/// holds the separator.
pub proof fn lemma_split_reassemble(s: Seq<char>, sep: char)
    ensures
        split_on(s, sep).len() >= 1,
        join_chars(split_on(s, sep), seq![sep]) == s,
        forall|i: int| 0 <= i < split_on(s, sep).len() ==> no_char(
            #[trigger] split_on(s, sep)[i],
            sep,
        ),
    decreases s.len(),
{
    lemma_find_char_props(s, sep);
    match find_char(s, sep) {
        None => {
            assert(split_on(s, sep) =~= seq![s]);
        },
        Some(i) => {
            let head = s.take(i);
            let rest = s.skip(i + 1);
            lemma_split_reassemble(rest, sep);
            let parts = split_on(s, sep);
            assert(parts == seq![head] + split_on(rest, sep));
            assert(no_char(head, sep)) by {
                assert(forall|j: int| 0 <= j < head.len() ==> head[j] == s[j]);
            }
            assert(parts.drop_first() =~= split_on(rest, sep));
            assert(parts.len() >= 2);
            assert(join_chars(parts, seq![sep]) == head + seq![sep] + join_chars(
                split_on(rest, sep),
                seq![sep],
            )) by {
                assert(parts[0] == head);
            }
            assert(head + seq![sep] + rest =~= s);
            assert(forall|j: int|
                0 <= j < parts.len() ==> parts[j] == (seq![head] + split_on(rest, sep))[j]);
        },
    }
}

/// Digit strings hold no separator characters.
proof fn lemma_digits_no_char(s: Seq<char>, c: char)
    requires
        all_digits(s),
        !is_digit(c),
    ensures
        no_char(s, c),
{
}

/// Rendering an address and parsing the rendering gives the address back:
/// the parser accepts exactly the canonical renderings and recovers every
/// field.
pub proof fn lemma_format_then_parse(p: IpPrefix)
    ensures
        parse_addr_spec(ip_prefix_chars(p)) == Some(p),
{
    reveal_strlit(".");
    reveal_strlit("/");
    assert("."@ =~= seq!['.']);
    assert("/"@ =~= seq!['/']);
    lemma_dec_digits_props(p.a as nat);
    lemma_dec_digits_props(p.b as nat);
    lemma_dec_digits_props(p.c as nat);
    lemma_dec_digits_props(p.d as nat);
    lemma_dec_digits_props(p.prefix as nat);
    let sa = dec_digits(p.a as nat);
    let sb = dec_digits(p.b as nat);
    let sc = dec_digits(p.c as nat);
    let sd = dec_digits(p.d as nat);
    let sp = dec_digits(p.prefix as nat);
    let ip = ipv4_chars(p.a, p.b, p.c, p.d);
    let s = ip_prefix_chars(p);

    // each rendered number is a valid octet string
    assert(is_octet_str(sa) && is_octet_str(sb) && is_octet_str(sc) && is_octet_str(sd)
        && is_octet_str(sp));

    // the address part holds no slash, so the slash split has two parts
    assert(no_char(ip, '/')) by {
        lemma_digits_no_char(sa, '/');
        lemma_digits_no_char(sb, '/');
        lemma_digits_no_char(sc, '/');
        lemma_digits_no_char(sd, '/');
        assert(ip =~= sa + seq!['.'] + (sb + seq!['.'] + (sc + seq!['.'] + sd)));
    }
    lemma_digits_no_char(sp, '/');
    assert(s =~= ip + seq!['/'] + sp);
    lemma_split_after_clean(ip, sp, '/');
    lemma_split_clean(sp, '/');
    assert(split_on(s, '/') == seq![ip] + seq![sp]);
    assert(split_on(s, '/') =~= seq![ip, sp]);

    // the dot split of the address part is the four octet strings
    lemma_digits_no_char(sa, '.');
    lemma_digits_no_char(sb, '.');
    lemma_digits_no_char(sc, '.');
    lemma_digits_no_char(sd, '.');
    let tail1 = sb + seq!['.'] + (sc + seq!['.'] + sd);
    let tail2 = sc + seq!['.'] + sd;
    assert(ip =~= sa + seq!['.'] + tail1);
    lemma_split_after_clean(sa, tail1, '.');
    lemma_split_after_clean(sb, tail2, '.');
    lemma_split_after_clean(sc, sd, '.');
    lemma_split_clean(sd, '.');
    assert(split_on(ip, '.') == seq![sa] + (seq![sb] + (seq![sc] + seq![sd])));
    assert(split_on(ip, '.') =~= seq![sa, sb, sc, sd]);

    // every octet parses back to its value
    assert(parse_octet_spec(sa) == Some(p.a));
    assert(parse_octet_spec(sb) == Some(p.b));
    assert(parse_octet_spec(sc) == Some(p.c));
    assert(parse_octet_spec(sd) == Some(p.d));
    assert(sp[0] != '+') by {
        assert(is_digit(sp[0]));
    }
    assert(prefix_digits(sp) == sp);
    assert(parse_prefix_spec(sp) == Some(p.prefix));
    assert(parse_ipv4_spec(ip) == Some((p.a, p.b, p.c, p.d)));
}

/// Every string the parser accepts determines its address exactly: the
/// dotted-quad part allows exactly one spelling of its value, and the
/// prefix part's digits evaluate to the parsed prefix length. When the
/// prefix part is itself in canonical decimal — no sign, no leading
/// zeros — the whole string is the canonical rendering of what it
/// parses to.
pub proof fn lemma_parse_then_format(s: Seq<char>, p: IpPrefix)
    requires
        parse_addr_spec(s) == Some(p),
    ensures
        split_on(s, '/').len() == 2,
        split_on(s, '/')[0] == ipv4_chars(p.a, p.b, p.c, p.d),
        dec_val(prefix_digits(split_on(s, '/')[1])) == p.prefix as nat,
        is_octet_str(split_on(s, '/')[1]) ==> s == ip_prefix_chars(p),
{
    reveal_strlit(".");
    reveal_strlit("/");
    assert("."@ =~= seq!['.']);
    assert("/"@ =~= seq!['/']);
    let parts = split_on(s, '/');
    assert(parts.len() == 2);
    let ip = parts[0];
    let sp = parts[1];
    lemma_split_reassemble(s, '/');
    assert(join_chars(parts, seq!['/']) == s);
    assert(parts.drop_first() =~= seq![sp]);
    assert(join_chars(seq![sp], seq!['/']) == sp);
    assert(s == ip + seq!['/'] + sp);

    assert(is_prefix_str(sp) && dec_val(prefix_digits(sp)) == p.prefix as nat);

    let dots = split_on(ip, '.');
    assert(dots.len() == 4);
    lemma_split_reassemble(ip, '.');
    assert(join_chars(dots, seq!['.']) == ip);
    let sa = dots[0];
    let sb = dots[1];
    let sc = dots[2];
    let sd = dots[3];
    assert(is_octet_str(sa) && dec_val(sa) == p.a as nat);
    assert(is_octet_str(sb) && dec_val(sb) == p.b as nat);
    assert(is_octet_str(sc) && dec_val(sc) == p.c as nat);
    assert(is_octet_str(sd) && dec_val(sd) == p.d as nat);
    lemma_octet_canonical(sa);
    lemma_octet_canonical(sb);
    lemma_octet_canonical(sc);
    lemma_octet_canonical(sd);
    assert(dots.drop_first() =~= seq![sb, sc, sd]);
    assert(seq![sb, sc, sd].drop_first() =~= seq![sc, sd]);
    assert(seq![sc, sd].drop_first() =~= seq![sd]);
    assert(join_chars(seq![sd], seq!['.']) == sd);
    assert(join_chars(seq![sc, sd], seq!['.']) == sc + seq!['.'] + sd);
    assert(join_chars(seq![sb, sc, sd], seq!['.']) == sb + seq!['.'] + (sc + seq!['.'] + sd));
    assert(ip == sa + seq!['.'] + (sb + seq!['.'] + (sc + seq!['.'] + sd)));
    assert(ip =~= ipv4_chars(p.a, p.b, p.c, p.d));

    if is_octet_str(sp) {
        assert(sp[0] != '+') by {
            assert(is_digit(sp[0]));
        }
        assert(prefix_digits(sp) == sp);
        assert(dec_val(sp) == p.prefix as nat);
        lemma_octet_canonical(sp);
        assert(sp == dec_digits(p.prefix as nat));
        assert(s =~= ip_prefix_chars(p));
    }
}

} // verus!
