//! Reading domains and mailboxes from text.
//!
//! The syntax is given by spec functions (`domain_of`, `mailbox_of`); the
//! parsers are proved to compute them.

use vstd::prelude::*;
use vstd::utf8::is_ascii_chars;
use crate::smtp::args::{
    is_alnum, is_atext, is_hostname, is_local_part, Domain, DomainView, Hostname, IpAddress,
    LocalPart, ParseError, Path, PathView,
};
use crate::text::{decimal, digit_value, hexadecimal, is_digit};

verus! {

/// The number of characters before the first `sep`, or the length of the
/// text where it holds none.
pub open spec fn span(s: Seq<char>, sep: char) -> int
    decreases s.len(),
{
    if s.len() == 0 || s[0] == sep {
        0
    } else {
        1 + span(s.drop_first(), sep)
    }
}

/// The parts of a text between the occurrences of `sep`.  There is always
/// at least one part; a text without `sep` is its own only part.
pub open spec fn fields(s: Seq<char>, sep: char) -> Seq<Seq<char>>
    decreases s.len(),
{
    let n = span(s, sep);
    if 0 <= n < s.len() {
        seq![s.take(n)] + fields(s.skip(n + 1), sep)
    } else {
        seq![s]
    }
}

/// `span` is the first position of `sep`, and the only number with that
/// property.
pub proof fn lemma_span(s: Seq<char>, sep: char, at: int)
    ensures
        0 <= span(s, sep) <= s.len(),
        span(s, sep) < s.len() ==> s[span(s, sep)] == sep,
        forall|j: int| 0 <= j < span(s, sep) ==> #[trigger] s[j] != sep,
        0 <= at <= s.len() && (at < s.len() ==> s[at] == sep) && (forall|j: int|
            0 <= j < at ==> #[trigger] s[j] != sep) ==> at == span(s, sep),
    decreases s.len(),
{
    if s.len() == 0 || s[0] == sep {
        if 0 < at <= s.len() && s.len() > 0 {
            assert(s[0] == sep);
        }
    } else {
        let rest = s.drop_first();
        lemma_span(rest, sep, at - 1);
        assert forall|j: int| 0 <= j < span(s, sep) implies #[trigger] s[j] != sep by {
            if j > 0 {
                assert(s[j] == rest[j - 1]);
            }
        }
        if 0 <= at <= s.len() && (at < s.len() ==> s[at] == sep) && (forall|j: int|
            0 <= j < at ==> #[trigger] s[j] != sep) {
            assert(at > 0);
            assert(at - 1 < rest.len() ==> rest[at - 1] == s[at]);
            assert forall|j: int| 0 <= j < at - 1 implies #[trigger] rest[j] != sep by {
                assert(rest[j] == s[j + 1]);
            }
        }
    }
}

/// The value of a hexadecimal digit of either case.
pub open spec fn hex_value(c: char) -> int {
    if is_digit(c) {
        c as int - 48
    } else if 'a' <= c && c <= 'f' {
        c as int - 87
    } else {
        c as int - 55
    }
}

/// A hexadecimal digit of either case.
pub open spec fn is_hex(c: char) -> bool {
    is_digit(c) || ('a' <= c && c <= 'f') || ('A' <= c && c <= 'F')
}

/// The number that a text of decimal digits spells.
pub open spec fn decimal_value(t: Seq<char>) -> int
    decreases t.len(),
{
    if t.len() == 0 {
        0
    } else {
        decimal_value(t.drop_last()) * 10 + digit_value(t.last())
    }
}

/// The number that a text of hexadecimal digits spells.
pub open spec fn hexadecimal_value(t: Seq<char>) -> int
    decreases t.len(),
{
    if t.len() == 0 {
        0
    } else {
        hexadecimal_value(t.drop_last()) * 16 + hex_value(t.last())
    }
}

/// One part of a dotted address: one to three decimal digits without a
/// superfluous leading zero, spelling a number up to 255.
pub open spec fn octet(t: Seq<char>) -> Option<u8> {
    if 1 <= t.len() <= 3 && (forall|i: int| 0 <= i < t.len() ==> is_digit(#[trigger] t[i])) && (
    t.len() == 1 || t[0] != '0') && decimal_value(t) <= 255 {
        Some(decimal_value(t) as u8)
    } else {
        None
    }
}

/// One group of a colon-separated address: one to four hexadecimal
/// digits of either case.
pub open spec fn group(t: Seq<char>) -> Option<u16> {
    if 1 <= t.len() <= 4 && (forall|i: int| 0 <= i < t.len() ==> is_hex(#[trigger] t[i])) {
        Some(hexadecimal_value(t) as u16)
    } else {
        None
    }
}

/// The address that a dotted text spells: four octets separated by dots.
pub open spec fn ipv4_of(t: Seq<char>) -> Option<IpAddress> {
    let parts = fields(t, '.');
    if parts.len() == 4 && octet(parts[0]) is Some && octet(parts[1]) is Some && octet(
        parts[2],
    ) is Some && octet(parts[3]) is Some {
        Some(
            IpAddress::V4(
                octet(parts[0])->0,
                octet(parts[1])->0,
                octet(parts[2])->0,
                octet(parts[3])->0,
            ),
        )
    } else {
        None
    }
}

/// The address that a colon-separated text spells: eight groups, written
/// in full.
pub open spec fn ipv6_of(t: Seq<char>) -> Option<IpAddress> {
    let parts = fields(t, ':');
    if parts.len() == 8 && (forall|i: int| 0 <= i < 8 ==> group(#[trigger] parts[i]) is Some) {
        Some(
            IpAddress::V6(
                group(parts[0])->0,
                group(parts[1])->0,
                group(parts[2])->0,
                group(parts[3])->0,
                group(parts[4])->0,
                group(parts[5])->0,
                group(parts[6])->0,
                group(parts[7])->0,
            ),
        )
    } else {
        None
    }
}

/// The tag that introduces a colon-separated address in a literal.
pub open spec fn ipv6_tag() -> Seq<char> {
    seq!['I', 'P', 'v', '6', ':']
}

/// The address that stands between the brackets of a literal.
pub open spec fn literal_of(body: Seq<char>) -> Option<IpAddress> {
    if body.len() >= 5 && body.take(5) == ipv6_tag() {
        ipv6_of(body.skip(5))
    } else {
        ipv4_of(body)
    }
}

/// The domain that a text spells: an address literal between square
/// brackets, or a host name.  A text with a character outside ASCII
/// spells none.
pub open spec fn domain_of(s: Seq<char>) -> Option<DomainView> {
    if !is_ascii_chars(s) {
        None
    } else if s.len() >= 2 && s[0] == '[' && s[s.len() - 1] == ']' {
        match literal_of(s.subrange(1, s.len() - 1)) {
            Some(address) => Some(DomainView::Literal(address)),
            None => None,
        }
    } else if is_hostname(s) {
        Some(DomainView::FQDN(s))
    } else {
        None
    }
}

/// The mailbox that a text spells: a local part, an `@` and a domain.
pub open spec fn mailbox_of(s: Seq<char>) -> Result<PathView, ParseError> {
    let at = span(s, '@');
    if !is_ascii_chars(s) {
        Err(ParseError::NotAscii)
    } else if !(0 <= at < s.len()) {
        Err(ParseError::MissingSeparator)
    } else if !is_local_part(s.take(at)) {
        Err(ParseError::InvalidLocalPart)
    } else {
        match domain_of(s.skip(at + 1)) {
            Some(domain) => Ok(PathView { local_part: s.take(at), domain }),
            None => Err(ParseError::InvalidDomain),
        }
    }
}

/// Finds the first `sep` at or after `from`.
fn find(s: &str, from: usize, sep: u8) -> (r: usize)
    requires
        s.is_ascii(),
        from <= s@.len(),
        sep < 128,
    ensures
        from <= r <= s@.len(),
        r - from == span(s@.skip(from as int), sep as char),
{
    let n: usize = s.unicode_len();
    let mut i: usize = from;
    while i < n && s.get_ascii(i) != sep
        invariant
            s.is_ascii(),
            n == s@.len(),
            from <= i <= n,
            sep < 128,
            forall|j: int| from <= j < i ==> #[trigger] s@[j] != sep as char,
        decreases n - i,
    {
        i += 1;
    }
    proof {
        let rest = s@.skip(from as int);
        assert forall|j: int| 0 <= j < i - from implies #[trigger] rest[j] != sep as char by {
            assert(rest[j] == s@[j + from]);
        }
        if i < n {
            assert(rest[i - from] == s@[i as int]);
        }
        lemma_span(rest, sep as char, i - from);
    }
    i
}

/// Cuts a text at every `sep` and returns where each part begins and
/// ends.
fn cut(s: &str, sep: u8) -> (r: Vec<(usize, usize)>)
    requires
        s.is_ascii(),
        sep < 128,
    ensures
        r.len() == fields(s@, sep as char).len(),
        forall|i: int|
            0 <= i < r.len() ==> (#[trigger] r[i]).0 <= r[i].1 <= s@.len() && s@.subrange(
                r[i].0 as int,
                r[i].1 as int,
            ) == fields(s@, sep as char)[i],
{
    let n: usize = s.unicode_len();
    let mut parts: Vec<(usize, usize)> = Vec::new();
    let mut start: usize = 0;
    let ghost mut done: Seq<Seq<char>> = Seq::empty();
    assert(s@.skip(0) =~= s@);
    loop
        invariant_except_break
            s.is_ascii(),
            sep < 128,
            n == s@.len(),
            0 <= start <= n,
            parts.len() == done.len(),
            fields(s@, sep as char) == done + fields(s@.skip(start as int), sep as char),
            forall|i: int|
                0 <= i < parts.len() ==> (#[trigger] parts[i]).0 <= parts[i].1 <= n && s@.subrange(
                    parts[i].0 as int,
                    parts[i].1 as int,
                ) == done[i],
        ensures
            parts.len() == fields(s@, sep as char).len(),
            forall|i: int|
                0 <= i < parts.len() ==> (#[trigger] parts[i]).0 <= parts[i].1 <= s@.len()
                    && s@.subrange(parts[i].0 as int, parts[i].1 as int) == fields(
                    s@,
                    sep as char,
                )[i],
        decreases n - start,
    {
        let end = find(s, start, sep);
        let ghost rest = s@.skip(start as int);
        let ghost before = done;
        if end >= n {
            parts.push((start, n));
            proof {
                done = done.push(rest);
                assert(s@.subrange(start as int, n as int) =~= rest);
                assert(fields(rest, sep as char) =~= seq![rest]);
                assert(fields(s@, sep as char) =~= done);
            }
            break ;
        }
        parts.push((start, end));
        proof {
            done = done.push(rest.take(end - start));
            assert(s@.subrange(start as int, end as int) =~= rest.take(end - start));
            assert(rest.skip(end - start + 1) =~= s@.skip(end + 1));
            assert(fields(rest, sep as char) =~= seq![rest.take(end - start)] + fields(
                s@.skip(end + 1),
                sep as char,
            ));
            assert(fields(s@, sep as char) =~= done + fields(s@.skip(end + 1), sep as char));
        }
        start = end + 1;
    }
    parts
}

/// Reads an octet from a part of a text.
fn read_octet(s: &str, from: usize, to: usize) -> (r: Option<u8>)
    requires
        s.is_ascii(),
        from <= to <= s@.len(),
    ensures
        r == octet(s@.subrange(from as int, to as int)),
{
    let ghost t = s@.subrange(from as int, to as int);
    if to - from < 1 || to - from > 3 {
        return None;
    }
    let mut value: u16 = 0;
    let mut i: usize = from;
    while i < to
        invariant
            s.is_ascii(),
            from <= i <= to <= s@.len(),
            to - from <= 3,
            t == s@.subrange(from as int, to as int),
            forall|j: int| 0 <= j < i - from ==> is_digit(#[trigger] t[j]),
            value == decimal_value(t.take(i - from)),
            value <= 999,
            i - from <= 2 ==> value <= 99,
            i - from <= 1 ==> value <= 9,
            i == from ==> value == 0,
        decreases to - i,
    {
        let b: u8 = s.get_ascii(i);
        assert(t[i - from] == s@[i as int]);
        if b < 48 || b > 57 {
            return None;
        }
        proof {
            let upto = t.take(i - from + 1);
            assert(upto.drop_last() =~= t.take(i - from));
            assert(upto.last() == t[i - from]);
        }
        value = value * 10 + (b - 48) as u16;
        i += 1;
    }
    assert(t.take(to - from) =~= t);
    if to - from > 1 && s.get_ascii(from) == 48 {
        assert(t[0] == s@[from as int]);
        return None;
    }
    assert(to - from > 1 ==> t[0] == s@[from as int]);
    if value > 255 {
        return None;
    }
    Some(value as u8)
}

/// Reads a group of hexadecimal digits from a part of a text.
fn read_group(s: &str, from: usize, to: usize) -> (r: Option<u16>)
    requires
        s.is_ascii(),
        from <= to <= s@.len(),
    ensures
        r == group(s@.subrange(from as int, to as int)),
{
    let ghost t = s@.subrange(from as int, to as int);
    if to - from < 1 || to - from > 4 {
        return None;
    }
    let mut value: u32 = 0;
    let mut i: usize = from;
    while i < to
        invariant
            s.is_ascii(),
            from <= i <= to <= s@.len(),
            to - from <= 4,
            t == s@.subrange(from as int, to as int),
            forall|j: int| 0 <= j < i - from ==> is_hex(#[trigger] t[j]),
            value == hexadecimal_value(t.take(i - from)),
            value <= 0xffff,
            i - from <= 3 ==> value <= 0xfff,
            i - from <= 2 ==> value <= 0xff,
            i - from <= 1 ==> value <= 0xf,
            i == from ==> value == 0,
        decreases to - i,
    {
        let b: u8 = s.get_ascii(i);
        assert(t[i - from] == s@[i as int]);
        let digit: u8 = if b >= 48 && b <= 57 {
            b - 48
        } else if b >= 97 && b <= 102 {
            b - 87
        } else if b >= 65 && b <= 70 {
            b - 55
        } else {
            return None;
        };
        proof {
            let upto = t.take(i - from + 1);
            assert(upto.drop_last() =~= t.take(i - from));
            assert(upto.last() == t[i - from]);
        }
        value = value * 16 + digit as u32;
        i += 1;
    }
    assert(t.take(to - from) =~= t);
    Some(value as u16)
}

/// Reads a dotted address from a part of a text.
fn read_ipv4(s: &str) -> (r: Option<IpAddress>)
    requires
        s.is_ascii(),
    ensures
        r == ipv4_of(s@),
{
    let parts = cut(s, 46);
    if parts.len() != 4 {
        return None;
    }
    let a = read_octet(s, parts[0].0, parts[0].1);
    let b = read_octet(s, parts[1].0, parts[1].1);
    let c = read_octet(s, parts[2].0, parts[2].1);
    let d = read_octet(s, parts[3].0, parts[3].1);
    match (a, b, c, d) {
        (Some(a), Some(b), Some(c), Some(d)) => Some(IpAddress::V4(a, b, c, d)),
        _ => None,
    }
}

/// Reads a colon-separated address from a part of a text.
fn read_ipv6(s: &str) -> (r: Option<IpAddress>)
    requires
        s.is_ascii(),
    ensures
        r == ipv6_of(s@),
{
    let parts = cut(s, 58);
    if parts.len() != 8 {
        return None;
    }
    let a = read_group(s, parts[0].0, parts[0].1);
    let b = read_group(s, parts[1].0, parts[1].1);
    let c = read_group(s, parts[2].0, parts[2].1);
    let d = read_group(s, parts[3].0, parts[3].1);
    let e = read_group(s, parts[4].0, parts[4].1);
    let f = read_group(s, parts[5].0, parts[5].1);
    let g = read_group(s, parts[6].0, parts[6].1);
    let h = read_group(s, parts[7].0, parts[7].1);
    match (a, b, c, d, e, f, g, h) {
        (Some(a), Some(b), Some(c), Some(d), Some(e), Some(f), Some(g), Some(h)) => Some(
            IpAddress::V6(a, b, c, d, e, f, g, h),
        ),
        _ => None,
    }
}

/// Reads what stands between the brackets of a literal.
fn read_literal(body: &str) -> (r: Option<IpAddress>)
    requires
        body.is_ascii(),
    ensures
        r == literal_of(body@),
{
    let n: usize = body.unicode_len();
    if n >= 5 && body.get_ascii(0) == 73 && body.get_ascii(1) == 80 && body.get_ascii(2) == 118
        && body.get_ascii(3) == 54 && body.get_ascii(4) == 58 {
        assert(body@.take(5) =~= ipv6_tag());
        read_ipv6(body.substring_ascii(5, n))
    } else {
        assert(n >= 5 ==> body@.take(5) != ipv6_tag()) by {
            if n >= 5 && body@.take(5) == ipv6_tag() {
                assert(body@.take(5)[0] == 'I' && body@.take(5)[1] == 'P' && body@.take(5)[2]
                    == 'v' && body@.take(5)[3] == '6' && body@.take(5)[4] == ':');
            }
        }
        read_ipv4(body)
    }
}

impl Domain {
    /// Reads a domain: a host name, or an address literal between square
    /// brackets.  The literal is four decimal octets separated by dots,
    /// or the tag `IPv6:` and eight groups of hexadecimal digits
    /// separated by colons.
    pub fn parse(s: &str) -> (r: Result<Domain, ParseError>)
        ensures
            r is Ok <==> domain_of(s@) is Some,
            r matches Ok(domain) ==> Some(domain@) == domain_of(s@),
            r matches Err(error) ==> error == ParseError::InvalidDomain,
    {
        if !s.is_ascii() {
            return Err(ParseError::InvalidDomain);
        }
        let n: usize = s.unicode_len();
        if n >= 2 && s.get_ascii(0) == 91 && s.get_ascii(n - 1) == 93 {
            match read_literal(s.substring_ascii(1, n - 1)) {
                Some(address) => Ok(Domain::Literal(address)),
                None => Err(ParseError::InvalidDomain),
            }
        } else {
            match Hostname::parse(s) {
                Ok(name) => Ok(Domain::FQDN(name)),
                Err(_) => Err(ParseError::InvalidDomain),
            }
        }
    }
}

impl Path {
    /// Reads a mailbox: a local part, an `@` and a domain, without angle
    /// brackets.
    pub fn parse(s: &str) -> (r: Result<Path, ParseError>)
        ensures
            r is Ok <==> mailbox_of(s@) is Ok,
            r matches Ok(path) ==> Ok::<PathView, ParseError>(path@) == mailbox_of(s@),
            r matches Err(error) ==> Err::<PathView, ParseError>(error) == mailbox_of(s@),
    {
        if !s.is_ascii() {
            return Err(ParseError::NotAscii);
        }
        let n: usize = s.unicode_len();
        assert(s@.skip(0) =~= s@);
        let at = find(s, 0, 64);
        if at >= n {
            return Err(ParseError::MissingSeparator);
        }
        let local_part = match LocalPart::parse(s.substring_ascii(0, at)) {
            Ok(local_part) => local_part,
            Err(_) => {
                return Err(ParseError::InvalidLocalPart);
            },
        };
        match Domain::parse(s.substring_ascii(at + 1, n)) {
            Ok(domain) => Ok(Path { local_part, domain }),
            Err(_) => Err(ParseError::InvalidDomain),
        }
    }
}

/// A text without `sep` is its own only field, and a text that begins
/// with such a text and a `sep` has it as its first field.
pub proof fn lemma_fields_of_joined(x: Seq<char>, y: Seq<char>, sep: char)
    requires
        forall|i: int| 0 <= i < x.len() ==> #[trigger] x[i] != sep,
    ensures
        fields(x, sep) == seq![x],
        fields(x + seq![sep] + y, sep) == seq![x] + fields(y, sep),
{
    let s = x + seq![sep] + y;
    lemma_span(x, sep, x.len() as int);
    assert forall|j: int| 0 <= j < x.len() implies #[trigger] s[j] != sep by {
        assert(s[j] == x[j]);
    }
    assert(s[x.len() as int] == sep);
    lemma_span(s, sep, x.len() as int);
    assert(s.take(x.len() as int) =~= x);
    assert(s.skip(x.len() as int + 1) =~= y);
}

/// The decimal spelling of a number is made of digits, has no
/// superfluous leading zero, and spells that number.
pub proof fn lemma_decimal_reads_back(n: nat)
    ensures
        decimal_value(decimal(n)) == n,
        decimal(n).len() >= 1,
        forall|i: int| 0 <= i < decimal(n).len() ==> is_digit(#[trigger] decimal(n)[i]),
        n >= 1 ==> decimal(n)[0] != '0',
        n < 10 ==> decimal(n).len() == 1,
        n < 100 ==> decimal(n).len() <= 2,
        n < 1000 ==> decimal(n).len() <= 3,
    decreases n,
{
    if n < 10 {
        let t = decimal(n);
        assert(t.drop_last() =~= Seq::<char>::empty());
        assert(decimal_value(t.drop_last()) == 0);
    } else {
        lemma_decimal_reads_back(n / 10);
        let head = decimal(n / 10);
        let t = decimal(n);
        assert(t.drop_last() =~= head);
        assert(t[0] == head[0]);
        assert forall|i: int| 0 <= i < t.len() implies is_digit(#[trigger] t[i]) by {
            if i < head.len() {
                assert(t[i] == head[i]);
            }
        }
    }
}

/// The hexadecimal spelling of a number is made of hexadecimal digits
/// and spells that number.
pub proof fn lemma_hexadecimal_reads_back(n: nat)
    ensures
        hexadecimal_value(hexadecimal(n)) == n,
        hexadecimal(n).len() >= 1,
        forall|i: int|
            0 <= i < hexadecimal(n).len() ==> is_hex(#[trigger] hexadecimal(n)[i]),
        n < 0x10 ==> hexadecimal(n).len() == 1,
        n < 0x100 ==> hexadecimal(n).len() <= 2,
        n < 0x1000 ==> hexadecimal(n).len() <= 3,
        n < 0x10000 ==> hexadecimal(n).len() <= 4,
    decreases n,
{
    if n < 16 {
        let t = hexadecimal(n);
        assert(t.drop_last() =~= Seq::<char>::empty());
        assert(hexadecimal_value(t.drop_last()) == 0);
    } else {
        lemma_hexadecimal_reads_back(n / 16);
        let head = hexadecimal(n / 16);
        let t = hexadecimal(n);
        assert(t.drop_last() =~= head);
        assert forall|i: int| 0 <= i < t.len() implies is_hex(#[trigger] t[i]) by {
            if i < head.len() {
                assert(t[i] == head[i]);
            }
        }
    }
}

/// The spelling of an octet reads back as that octet.
pub proof fn lemma_octet_reads_back(n: u8)
    ensures
        octet(decimal(n as nat)) == Some(n),
        forall|i: int|
            0 <= i < decimal(n as nat).len() ==> #[trigger] decimal(n as nat)[i] != '.',
{
    lemma_decimal_reads_back(n as nat);
    let t = decimal(n as nat);
    assert forall|i: int| 0 <= i < t.len() implies #[trigger] t[i] != '.' by {
        assert(is_digit(t[i]));
    }
    if t.len() > 1 {
        assert(n >= 10);
    }
}

/// The spelling of a group reads back as that group.
pub proof fn lemma_group_reads_back(n: u16)
    ensures
        group(hexadecimal(n as nat)) == Some(n),
        forall|i: int|
            0 <= i < hexadecimal(n as nat).len() ==> #[trigger] hexadecimal(n as nat)[i] != ':',
{
    lemma_hexadecimal_reads_back(n as nat);
    let t = hexadecimal(n as nat);
    assert forall|i: int| 0 <= i < t.len() implies #[trigger] t[i] != ':' by {
        assert(is_hex(t[i]));
    }
}

/// Whether a text is made of allowed characters only.
pub open spec fn only(s: Seq<char>, allowed: spec_fn(char) -> bool) -> bool {
    forall|i: int| 0 <= i < s.len() ==> allowed(#[trigger] s[i])
}

/// Two texts of allowed characters make a text of allowed characters.
pub proof fn lemma_only_joined(x: Seq<char>, y: Seq<char>, allowed: spec_fn(char) -> bool)
    requires
        only(x, allowed),
        only(y, allowed),
    ensures
        only(x + y, allowed),
{
    assert forall|i: int| 0 <= i < (x + y).len() implies allowed(#[trigger] (x + y)[i]) by {
        if i < x.len() {
            assert((x + y)[i] == x[i]);
        } else {
            assert((x + y)[i] == y[i - x.len()]);
        }
    }
}

/// The characters of a dotted address.
pub open spec fn dotted(c: char) -> bool {
    is_digit(c) || c == '.'
}

/// The characters of a colon-separated address.
pub open spec fn grouped(c: char) -> bool {
    is_hex(c) || c == ':'
}

/// A number and a separator before a text: the first field is the
/// number, and the characters stay within the allowed ones.
proof fn lemma_one_more_field(
    head: Seq<char>,
    rest: Seq<char>,
    sep: char,
    allowed: spec_fn(char) -> bool,
)
    requires
        forall|i: int| 0 <= i < head.len() ==> #[trigger] head[i] != sep,
        only(head, allowed),
        only(rest, allowed),
        allowed(sep),
    ensures
        fields(head + seq![sep] + rest, sep) == seq![head] + fields(rest, sep),
        only(head + seq![sep] + rest, allowed),
{
    lemma_fields_of_joined(head, rest, sep);
    assert(only(seq![sep], allowed));
    lemma_only_joined(head, seq![sep], allowed);
    lemma_only_joined(head + seq![sep], rest, allowed);
}

/// The spelling of an octet, as a field.
proof fn lemma_octet_field(n: u8)
    ensures
        octet(decimal(n as nat)) == Some(n),
        forall|i: int|
            0 <= i < decimal(n as nat).len() ==> #[trigger] decimal(n as nat)[i] != '.',
        only(decimal(n as nat), |c: char| dotted(c)),
        decimal(n as nat).len() >= 1,
        is_digit(decimal(n as nat)[0]),
{
    lemma_octet_reads_back(n);
    lemma_decimal_reads_back(n as nat);
    let t = decimal(n as nat);
    assert forall|i: int| 0 <= i < t.len() implies dotted(#[trigger] t[i]) by {
        assert(is_digit(t[i]));
    }
}

/// The spelling of a group, as a field.
proof fn lemma_group_field(n: u16)
    ensures
        group(hexadecimal(n as nat)) == Some(n),
        forall|i: int|
            0 <= i < hexadecimal(n as nat).len() ==> #[trigger] hexadecimal(n as nat)[i] != ':',
        only(hexadecimal(n as nat), |c: char| grouped(c)),
{
    lemma_group_reads_back(n);
    lemma_hexadecimal_reads_back(n as nat);
    let t = hexadecimal(n as nat);
    assert forall|i: int| 0 <= i < t.len() implies grouped(#[trigger] t[i]) by {
        assert(is_hex(t[i]));
    }
}

/// A dotted address reads back as itself.
pub proof fn lemma_dotted_reads_back(a: u8, b: u8, c: u8, d: u8)
    ensures
        ipv4_of(IpAddress::V4(a, b, c, d).text()) == Some(IpAddress::V4(a, b, c, d)),
        only(IpAddress::V4(a, b, c, d).text(), |c: char| dotted(c)),
        IpAddress::V4(a, b, c, d).text().len() >= 1,
        is_digit(IpAddress::V4(a, b, c, d).text()[0]),
{
    let allowed = |c: char| dotted(c);
    let (ta, tb, tc, td) = (
        decimal(a as nat),
        decimal(b as nat),
        decimal(c as nat),
        decimal(d as nat),
    );
    lemma_octet_field(a);
    lemma_octet_field(b);
    lemma_octet_field(c);
    lemma_octet_field(d);
    let dot = seq!['.'];
    let body = IpAddress::V4(a, b, c, d).text();
    let r3 = tc + dot + td;
    let r2 = tb + dot + r3;
    assert(body =~= ta + dot + r2);
    lemma_fields_of_joined(td, Seq::<char>::empty(), '.');
    lemma_one_more_field(tc, td, '.', allowed);
    lemma_one_more_field(tb, r3, '.', allowed);
    lemma_one_more_field(ta, r2, '.', allowed);
    assert(fields(body, '.') =~= seq![ta, tb, tc, td]);
    assert(body[0] == ta[0]);
}

/// The eight groups of a colon-separated address, written in full.
pub open spec fn groups_text(a: u16, b: u16, c: u16, d: u16, e: u16, f: u16, g: u16, h: u16) -> Seq<
    char,
> {
    hexadecimal(a as nat) + seq![':'] + (hexadecimal(b as nat) + seq![':'] + (hexadecimal(c as nat)
        + seq![':'] + (hexadecimal(d as nat) + seq![':'] + (hexadecimal(e as nat) + seq![':'] + (
    hexadecimal(f as nat) + seq![':'] + (hexadecimal(g as nat) + seq![':'] + hexadecimal(
        h as nat,
    )))))))
}

/// A colon-separated address written in full reads back as itself.
pub proof fn lemma_grouped_reads_back(
    a: u16,
    b: u16,
    c: u16,
    d: u16,
    e: u16,
    f: u16,
    g: u16,
    h: u16,
)
    ensures
        ipv6_of(groups_text(a, b, c, d, e, f, g, h)) == Some(IpAddress::V6(a, b, c, d, e, f, g, h)),
        only(groups_text(a, b, c, d, e, f, g, h), |c: char| grouped(c)),
{
    let allowed = |c: char| grouped(c);
    let (ta, tb, tc, td, te, tf, tg, th) = (
        hexadecimal(a as nat),
        hexadecimal(b as nat),
        hexadecimal(c as nat),
        hexadecimal(d as nat),
        hexadecimal(e as nat),
        hexadecimal(f as nat),
        hexadecimal(g as nat),
        hexadecimal(h as nat),
    );
    lemma_group_field(a);
    lemma_group_field(b);
    lemma_group_field(c);
    lemma_group_field(d);
    lemma_group_field(e);
    lemma_group_field(f);
    lemma_group_field(g);
    lemma_group_field(h);
    let colon = seq![':'];
    let r7 = tg + colon + th;
    let r6 = tf + colon + r7;
    let r5 = te + colon + r6;
    let r4 = td + colon + r5;
    let r3 = tc + colon + r4;
    let r2 = tb + colon + r3;
    lemma_fields_of_joined(th, Seq::<char>::empty(), ':');
    lemma_one_more_field(tg, th, ':', allowed);
    lemma_one_more_field(tf, r7, ':', allowed);
    lemma_one_more_field(te, r6, ':', allowed);
    lemma_one_more_field(td, r5, ':', allowed);
    lemma_one_more_field(tc, r4, ':', allowed);
    lemma_one_more_field(tb, r3, ':', allowed);
    lemma_one_more_field(ta, r2, ':', allowed);
    let parts = fields(groups_text(a, b, c, d, e, f, g, h), ':');
    assert(parts =~= seq![ta, tb, tc, td, te, tf, tg, th]);
    assert forall|i: int| 0 <= i < 8 implies group(#[trigger] parts[i]) is Some by {
        assert(i == 0 || i == 1 || i == 2 || i == 3 || i == 4 || i == 5 || i == 6 || i == 7);
    }
}

/// Joining is associative.
proof fn lemma_regroup(p: Seq<char>, x: Seq<char>, sep: Seq<char>, y: Seq<char>)
    ensures
        p + x + sep + y == p + (x + sep + y),
{
    assert(p + x + sep + y =~= p + (x + sep + y));
}

/// The text of a colon-separated address is the tag followed by the
/// groups.
proof fn lemma_tagged_groups(a: u16, b: u16, c: u16, d: u16, e: u16, f: u16, g: u16, h: u16)
    ensures
        IpAddress::V6(a, b, c, d, e, f, g, h).text() == ipv6_tag() + groups_text(
            a,
            b,
            c,
            d,
            e,
            f,
            g,
            h,
        ),
{
    let (ta, tb, tc, td, te, tf, tg, th) = (
        hexadecimal(a as nat),
        hexadecimal(b as nat),
        hexadecimal(c as nat),
        hexadecimal(d as nat),
        hexadecimal(e as nat),
        hexadecimal(f as nat),
        hexadecimal(g as nat),
        hexadecimal(h as nat),
    );
    let colon = seq![':'];
    assert("IPv6:"@ =~= ipv6_tag()) by {
        reveal_strlit("IPv6:");
    }
    let p0 = ipv6_tag();
    let p1 = p0 + ta + colon;
    let p2 = p1 + tb + colon;
    let p3 = p2 + tc + colon;
    let p4 = p3 + td + colon;
    let p5 = p4 + te + colon;
    let p6 = p5 + tf + colon;
    let r7 = tg + colon + th;
    let r6 = tf + colon + r7;
    let r5 = te + colon + r6;
    let r4 = td + colon + r5;
    let r3 = tc + colon + r4;
    let r2 = tb + colon + r3;
    lemma_regroup(p6, tg, colon, th);
    lemma_regroup(p5, tf, colon, r7);
    lemma_regroup(p4, te, colon, r6);
    lemma_regroup(p3, td, colon, r5);
    lemma_regroup(p2, tc, colon, r4);
    lemma_regroup(p1, tb, colon, r3);
    lemma_regroup(p0, ta, colon, r2);
}

/// What stands between the brackets of a written literal reads back as
/// the address.
pub proof fn lemma_written_literal_reads_back(address: IpAddress)
    ensures
        literal_of(address.text()) == Some(address),
        forall|i: int|
            0 <= i < address.text().len() ==> '\0' <= #[trigger] address.text()[i] <= '\u{7f}'
                && address.text()[i] != '@',
{
    let body = address.text();
    match address {
        IpAddress::V4(a, b, c, d) => {
            lemma_dotted_reads_back(a, b, c, d);
            assert(body.len() >= 5 ==> body.take(5)[0] == body[0]);
            assert(ipv6_tag()[0] == 'I');
            assert forall|i: int| 0 <= i < body.len() implies '\0' <= #[trigger] body[i]
                <= '\u{7f}' && body[i] != '@' by {
                assert(dotted(body[i]));
            }
        },
        IpAddress::V6(a, b, c, d, e, f, g, h) => {
            lemma_grouped_reads_back(a, b, c, d, e, f, g, h);
            lemma_tagged_groups(a, b, c, d, e, f, g, h);
            let groups = groups_text(a, b, c, d, e, f, g, h);
            assert(body.take(5) =~= ipv6_tag());
            assert(body.skip(5) =~= groups);
            assert forall|i: int| 0 <= i < body.len() implies '\0' <= #[trigger] body[i]
                <= '\u{7f}' && body[i] != '@' by {
                if i >= 5 {
                    assert(body[i] == groups[i - 5]);
                    assert(grouped(groups[i - 5]));
                } else {
                    assert(body[i] == ipv6_tag()[i]);
                }
            }
        },
    }
}

/// A domain as it is written in a command reads back as itself: reading
/// undoes writing.
pub proof fn lemma_written_domain_reads_back(domain: DomainView)
    requires
        domain matches DomainView::FQDN(name) ==> is_hostname(name),
    ensures
        domain_of(domain.text()) == Some(domain),
        is_ascii_chars(domain.text()),
        forall|i: int| 0 <= i < domain.text().len() ==> #[trigger] domain.text()[i] != '@',
{
    match domain {
        DomainView::FQDN(name) => {
            assert forall|i: int| 0 <= i < name.len() implies '\0' <= #[trigger] name[i]
                <= '\u{7f}' && name[i] != '@' by {
                assert(is_alnum(name[i]) || name[i] == '-' || name[i] == '.');
            }
            assert(name[0] != '[');
        },
        DomainView::Literal(address) => {
            lemma_written_literal_reads_back(address);
            let body = address.text();
            let text = domain.text();
            assert(text =~= seq!['['] + body + seq![']']);
            assert(text.subrange(1, text.len() - 1) =~= body);
            assert forall|i: int| 0 <= i < text.len() implies '\0' <= #[trigger] text[i]
                <= '\u{7f}' && text[i] != '@' by {
                if 0 < i < text.len() - 1 {
                    assert(text[i] == body[i - 1]);
                }
            }
        },
    }
}

/// Where a character of two texts joined by a third comes from.
proof fn lemma_joined_chars(x: Seq<char>, sep: Seq<char>, y: Seq<char>, i: int)
    requires
        sep.len() == 1,
        0 <= i < (x + sep + y).len(),
    ensures
        i < x.len() ==> (x + sep + y)[i] == x[i],
        i == x.len() ==> (x + sep + y)[i] == sep[0],
        i > x.len() ==> (x + sep + y)[i] == y[i - x.len() - 1] && 0 <= i - x.len() - 1 < y.len(),
{
}

/// A mailbox written as its local part, an `@` and its domain reads back
/// as itself.
pub proof fn lemma_written_mailbox_reads_back(path: PathView)
    requires
        is_local_part(path.local_part),
        path.domain matches DomainView::FQDN(name) ==> is_hostname(name),
    ensures
        mailbox_of(path.local_part + seq!['@'] + path.domain.text()) == Ok::<
            PathView,
            ParseError,
        >(path),
{
    let local = path.local_part;
    let domain = path.domain.text();
    let s = local + seq!['@'] + domain;
    lemma_written_domain_reads_back(path.domain);
    assert forall|i: int| 0 <= i < local.len() implies #[trigger] local[i] != '@' && '\0'
        <= local[i] <= '\u{7f}' by {
        assert(is_atext(local[i]) || local[i] == '.');
    }
    assert forall|j: int| 0 <= j < local.len() implies #[trigger] s[j] != '@' by {
        assert(s[j] == local[j]);
    }
    assert(s[local.len() as int] == '@');
    lemma_span(s, '@', local.len() as int);
    assert(s.take(local.len() as int) =~= local);
    assert(s.skip(local.len() as int + 1) =~= domain);
    assert forall|i: int| 0 <= i < s.len() implies '\0' <= #[trigger] s[i] <= '\u{7f}' by {
        lemma_joined_chars(local, seq!['@'], domain, i);
    }
}

} // verus!
