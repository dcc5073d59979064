//! The address model: local parts, domains, mailbox paths and the two
//! envelope directions.
//!
//! Every exec type has a mathematical view.  Texts are viewed as
//! `Seq<char>`; the structured types are viewed as the ghost datatypes
//! defined beside them.  All renderings are spec functions over those
//! views, so that a contract elsewhere in the crate can say exactly which
//! characters go on the wire.

use vstd::prelude::*;
use crate::text::{
    decimal, hexadecimal, is_digit, is_letter, lower, lower_byte, push_decimal, push_hexadecimal,
    same_ignoring_case,
};

verus! {

/// Why a text was refused as an address component.
#[derive(Debug, Clone, Copy, PartialEq, Eq, Structural)]
pub enum ParseError {
    /// The text is not a dot-separated run of atoms of at most 64 characters.
    InvalidLocalPart,
    /// The text is neither a host name nor a bracketed address literal.
    InvalidDomain,
    /// A mailbox was expected but the text holds no `@`.
    MissingSeparator,
    /// A mailbox was expected but the text holds a character outside
    /// ASCII.
    NotAscii,
}

/// A letter or a digit.
pub open spec fn is_alnum(c: char) -> bool {
    is_letter(c) || is_digit(c)
}

/// A character that may stand in an atom of a local part.
pub open spec fn is_atext(c: char) -> bool {
    ||| is_alnum(c)
    ||| c == '!'
    ||| c == '#'
    ||| c == '$'
    ||| c == '%'
    ||| c == '&'
    ||| c == '\''
    ||| c == '*'
    ||| c == '+'
    ||| c == '-'
    ||| c == '/'
    ||| c == '='
    ||| c == '?'
    ||| c == '^'
    ||| c == '_'
    ||| c == '`'
    ||| c == '{'
    ||| c == '|'
    ||| c == '}'
    ||| c == '~'
}

/// A local part in dot-string form: one to 64 characters, atoms of
/// `is_atext` characters separated by single dots, with no dot at either
/// end.
pub open spec fn is_local_part(s: Seq<char>) -> bool {
    &&& 1 <= s.len() <= 64
    &&& forall|i: int| 0 <= i < s.len() ==> is_atext(#[trigger] s[i]) || s[i] == '.'
    &&& s[0] != '.'
    &&& s[s.len() - 1] != '.'
    &&& forall|i: int| 0 < i < s.len() && #[trigger] s[i] == '.' ==> s[i - 1] != '.'
}

/// A host name: one to 255 characters, labels of letters, digits and
/// hyphens separated by single dots, every label beginning and ending with
/// a letter or a digit.
pub open spec fn is_hostname(s: Seq<char>) -> bool {
    &&& 1 <= s.len() <= 255
    &&& forall|i: int|
        0 <= i < s.len() ==> is_alnum(#[trigger] s[i]) || s[i] == '-' || s[i] == '.'
    &&& is_alnum(s[0])
    &&& is_alnum(s[s.len() - 1])
    &&& forall|i: int|
        0 < i < s.len() - 1 && #[trigger] s[i] == '.' ==> is_alnum(s[i - 1]) && is_alnum(s[i + 1])
}

/// Exec form of `is_alnum` on an ASCII byte.
fn alnum_byte(b: u8) -> (r: bool)
    requires
        b < 128,
    ensures
        r == is_alnum(b as char),
{
    (b >= 97 && b <= 122) || (b >= 65 && b <= 90) || (b >= 48 && b <= 57)
}

/// Exec form of `is_atext` on an ASCII byte.
fn atext_byte(b: u8) -> (r: bool)
    requires
        b < 128,
    ensures
        r == is_atext(b as char),
{
    alnum_byte(b) || b == 33 || (b >= 35 && b <= 39) || b == 42 || b == 43 || b == 45 || b == 47
        || b == 61 || b == 63 || (b >= 94 && b <= 96) || (b >= 123 && b <= 126)
}

/// Checks a text against `is_local_part`.
pub fn check_local_part(s: &str) -> (r: bool)
    ensures
        r == is_local_part(s@),
{
    if !s.is_ascii() {
        return false;
    }
    let n: usize = s.unicode_len();
    if n < 1 || n > 64 {
        return false;
    }
    let mut prev_dot: bool = true;
    let mut i: usize = 0;
    while i < n
        invariant
            s.is_ascii(),
            n == s@.len(),
            1 <= n <= 64,
            0 <= i <= n,
            forall|j: int| 0 <= j < i ==> is_atext(#[trigger] s@[j]) || s@[j] == '.',
            i > 0 ==> s@[0] != '.',
            forall|j: int| 0 < j < i && #[trigger] s@[j] == '.' ==> s@[j - 1] != '.',
            prev_dot == (i == 0 || s@[i - 1] == '.'),
        decreases n - i,
    {
        let b: u8 = s.get_ascii(i);
        if b == 46 {
            if prev_dot {
                return false;
            }
            prev_dot = true;
        } else {
            if !atext_byte(b) {
                return false;
            }
            prev_dot = false;
        }
        i += 1;
    }
    !prev_dot
}

/// Checks a text against `is_hostname`.
pub fn check_hostname(s: &str) -> (r: bool)
    ensures
        r == is_hostname(s@),
{
    if !s.is_ascii() {
        return false;
    }
    let n: usize = s.unicode_len();
    if n < 1 || n > 255 {
        return false;
    }
    let mut prev_alnum: bool = false;
    let mut prev_dot: bool = true;
    let mut i: usize = 0;
    while i < n
        invariant
            s.is_ascii(),
            n == s@.len(),
            1 <= n <= 255,
            0 <= i <= n,
            forall|j: int|
                0 <= j < i ==> is_alnum(#[trigger] s@[j]) || s@[j] == '-' || s@[j] == '.',
            i > 0 ==> is_alnum(s@[0]),
            forall|j: int|
                0 < j < i && #[trigger] s@[j] == '.' ==> is_alnum(s@[j - 1]) && (j + 1 < i
                    ==> is_alnum(s@[j + 1])),
            i > 0 ==> prev_alnum == is_alnum(s@[i - 1]),
            prev_dot == (i == 0 || s@[i - 1] == '.'),
        decreases n - i,
    {
        let b: u8 = s.get_ascii(i);
        let alnum = alnum_byte(b);
        if prev_dot && !alnum {
            return false;
        }
        if b == 46 {
            if !prev_alnum {
                return false;
            }
        } else if !alnum && b != 45 {
            return false;
        }
        prev_alnum = alnum;
        prev_dot = b == 46;
        i += 1;
    }
    prev_alnum
}

/// The part of a mailbox address to the left of the `@`.
#[derive(Debug, PartialEq, Eq)]
pub struct LocalPart {
    text: String,
}

impl View for LocalPart {
    type V = Seq<char>;

    closed spec fn view(&self) -> Seq<char> {
        self.text@
    }
}

impl DeepView for LocalPart {
    type V = Seq<char>;

    open spec fn deep_view(&self) -> Seq<char> {
        self@
    }
}

impl Clone for LocalPart {
    fn clone(&self) -> (r: Self)
        ensures
            r@ == self@,
    {
        proof {
            use_type_invariant(self);
        }
        LocalPart { text: self.text.clone() }
    }
}

impl LocalPart {
    #[verifier::type_invariant]
    spec fn valid(self) -> bool {
        is_local_part(self.text@)
    }

    /// Accepts exactly the texts that satisfy `is_local_part`.
    pub fn parse(s: &str) -> (r: Result<LocalPart, ParseError>)
        ensures
            r is Ok <==> is_local_part(s@),
            r matches Ok(p) ==> p@ == s@,
            r matches Err(e) ==> e == ParseError::InvalidLocalPart,
    {
        if check_local_part(s) {
            Ok(LocalPart { text: s.to_owned() })
        } else {
            Err(ParseError::InvalidLocalPart)
        }
    }

    /// The text of the local part, which is always well formed.
    pub fn as_str(&self) -> (r: &str)
        ensures
            r@ == self@,
            is_local_part(self@),
    {
        proof {
            use_type_invariant(self);
        }
        self.text.as_str()
    }
}

/// A fully qualified host name.
#[derive(Debug)]
pub struct Hostname {
    text: String,
}

impl View for Hostname {
    type V = Seq<char>;

    closed spec fn view(&self) -> Seq<char> {
        self.text@
    }
}

impl DeepView for Hostname {
    type V = Seq<char>;

    open spec fn deep_view(&self) -> Seq<char> {
        self@
    }
}

impl Clone for Hostname {
    fn clone(&self) -> (r: Self)
        ensures
            r@ == self@,
    {
        proof {
            use_type_invariant(self);
        }
        Hostname { text: self.text.clone() }
    }
}

impl Hostname {
    #[verifier::type_invariant]
    spec fn valid(self) -> bool {
        is_hostname(self.text@)
    }

    /// Accepts exactly the texts that satisfy `is_hostname`.
    pub fn parse(s: &str) -> (r: Result<Hostname, ParseError>)
        ensures
            r is Ok <==> is_hostname(s@),
            r matches Ok(h) ==> h@ == s@,
            r matches Err(e) ==> e == ParseError::InvalidDomain,
    {
        if check_hostname(s) {
            Ok(Hostname { text: s.to_owned() })
        } else {
            Err(ParseError::InvalidDomain)
        }
    }

    /// The text of the name, which is always well formed.
    pub fn as_str(&self) -> (r: &str)
        ensures
            r@ == self@,
            is_hostname(self@),
    {
        proof {
            use_type_invariant(self);
        }
        self.text.as_str()
    }

    /// Compares two names without regard to the case of their letters.
    pub fn same_as(&self, other: &Hostname) -> (r: bool)
        ensures
            r == same_ignoring_case(self@, other@),
    {
        let a = self.as_str();
        let b = other.as_str();
        let n: usize = a.unicode_len();
        if b.unicode_len() != n {
            return false;
        }
        let mut i: usize = 0;
        while i < n
            invariant
                a@ == self@,
                b@ == other@,
                a.is_ascii(),
                b.is_ascii(),
                n == a@.len(),
                n == b@.len(),
                0 <= i <= n,
                forall|j: int| 0 <= j < i ==> lower(#[trigger] a@[j]) == lower(b@[j]),
            decreases n - i,
        {
            let x: u8 = a.get_ascii(i);
            let y: u8 = b.get_ascii(i);
            assert(x as char == a@[i as int] && y as char == b@[i as int]);
            if lower_byte(x) != lower_byte(y) {
                return false;
            }
            i += 1;
        }
        true
    }
}

/// A literal network address, as it may stand in brackets in place of a
/// host name.
#[derive(Debug, Clone, Copy, PartialEq, Eq, Structural)]
pub enum IpAddress {
    /// Four octets, most significant first.
    V4(u8, u8, u8, u8),
    /// Eight sixteen-bit groups, most significant first.
    V6(u16, u16, u16, u16, u16, u16, u16, u16),
}

impl IpAddress {
    /// The text of the address inside the brackets of a literal: dotted
    /// decimal for the four-octet form, the tag `IPv6:` and eight
    /// colon-separated hexadecimal groups for the other.
    pub open spec fn text(self) -> Seq<char> {
        match self {
            IpAddress::V4(a, b, c, d) => decimal(a as nat) + seq!['.'] + decimal(b as nat)
                + seq!['.'] + decimal(c as nat) + seq!['.'] + decimal(d as nat),
            IpAddress::V6(a, b, c, d, e, f, g, h) => "IPv6:"@ + hexadecimal(a as nat) + seq![':']
                + hexadecimal(b as nat) + seq![':'] + hexadecimal(c as nat) + seq![':']
                + hexadecimal(d as nat) + seq![':'] + hexadecimal(e as nat) + seq![':']
                + hexadecimal(f as nat) + seq![':'] + hexadecimal(g as nat) + seq![':']
                + hexadecimal(h as nat),
        }
    }

    /// Appends `self.text()` to a text.
    pub fn write_to(&self, out: &mut String)
        ensures
            final(out)@ == old(out)@ + self.text(),
    {
        proof {
            reveal_strlit(".");
            reveal_strlit(":");
        }
        match *self {
            IpAddress::V4(a, b, c, d) => {
                push_decimal(out, a);
                out.append(".");
                push_decimal(out, b);
                out.append(".");
                push_decimal(out, c);
                out.append(".");
                push_decimal(out, d);
            },
            IpAddress::V6(a, b, c, d, e, f, g, h) => {
                out.append("IPv6:");
                push_hexadecimal(out, a);
                out.append(":");
                push_hexadecimal(out, b);
                out.append(":");
                push_hexadecimal(out, c);
                out.append(":");
                push_hexadecimal(out, d);
                out.append(":");
                push_hexadecimal(out, e);
                out.append(":");
                push_hexadecimal(out, f);
                out.append(":");
                push_hexadecimal(out, g);
                out.append(":");
                push_hexadecimal(out, h);
            },
        }
        assert(out@ =~= old(out)@ + self.text());
    }
}

/// The destination of a mailbox: a host name or an address literal.
#[derive(Debug)]
pub enum Domain {
    FQDN(Hostname),
    Literal(IpAddress),
}

/// The mathematical value of a `Domain`.
pub enum DomainView {
    FQDN(Seq<char>),
    Literal(IpAddress),
}

impl DomainView {
    /// Equality of domains: host names are compared without regard to
    /// case, address literals exactly.
    pub open spec fn same_as(self, other: DomainView) -> bool {
        match (self, other) {
            (DomainView::FQDN(a), DomainView::FQDN(b)) => same_ignoring_case(a, b),
            (DomainView::Literal(a), DomainView::Literal(b)) => a == b,
            _ => false,
        }
    }

    /// The domain as it is written in a command.
    pub open spec fn text(self) -> Seq<char> {
        match self {
            DomainView::FQDN(name) => name,
            DomainView::Literal(ip) => seq!['['] + ip.text() + seq![']'],
        }
    }
}

impl View for Domain {
    type V = DomainView;

    open spec fn view(&self) -> DomainView {
        match self {
            Domain::FQDN(name) => DomainView::FQDN(name@),
            Domain::Literal(ip) => DomainView::Literal(*ip),
        }
    }
}

impl DeepView for Domain {
    type V = DomainView;

    open spec fn deep_view(&self) -> DomainView {
        self@
    }
}

impl Clone for Domain {
    fn clone(&self) -> (r: Self)
        ensures
            r@ == self@,
    {
        match self {
            Domain::FQDN(name) => Domain::FQDN(name.clone()),
            Domain::Literal(ip) => Domain::Literal(*ip),
        }
    }
}

impl PartialEq for Domain {
    fn eq(&self, other: &Domain) -> (r: bool) {
        self.same_as(other)
    }
}

impl Eq for Domain {

}

impl vstd::std_specs::cmp::PartialEqSpecImpl for Domain {
    open spec fn obeys_eq_spec() -> bool {
        true
    }

    open spec fn eq_spec(&self, other: &Domain) -> bool {
        self@.same_as(other@)
    }
}

impl Domain {
    /// Equality of domains, as `DomainView::same_as` defines it.
    pub fn same_as(&self, other: &Domain) -> (r: bool)
        ensures
            r == self@.same_as(other@),
    {
        match self {
            Domain::FQDN(a) => match other {
                Domain::FQDN(b) => a.same_as(b),
                Domain::Literal(_) => false,
            },
            Domain::Literal(a) => match other {
                Domain::FQDN(_) => false,
                Domain::Literal(b) => *a == *b,
            },
        }
    }

    /// Appends the domain as it is written in a command.
    pub fn write_to(&self, out: &mut String)
        ensures
            final(out)@ == old(out)@ + self@.text(),
    {
        proof {
            reveal_strlit("[");
            reveal_strlit("]");
        }
        match self {
            Domain::FQDN(name) => {
                out.append(name.as_str());
            },
            Domain::Literal(ip) => {
                out.append("[");
                ip.write_to(out);
                out.append("]");
            },
        }
        assert(out@ =~= old(out)@ + self@.text());
    }

    /// The domain as it is written in a command.
    pub fn to_string(&self) -> (r: String)
        ensures
            r@ == self@.text(),
    {
        let mut out = String::new();
        self.write_to(&mut out);
        assert(out@ =~= self@.text());
        out
    }
}

/// A full mailbox address.
#[derive(Debug, PartialEq, Eq)]
pub struct Path {
    pub local_part: LocalPart,
    pub domain: Domain,
}

/// The mathematical value of a `Path`.
pub struct PathView {
    pub local_part: Seq<char>,
    pub domain: DomainView,
}

impl PathView {
    /// The mailbox between angle brackets, as it is written in a command.
    pub open spec fn text(self) -> Seq<char> {
        seq!['<'] + self.local_part + seq!['@'] + self.domain.text() + seq!['>']
    }
}

impl View for Path {
    type V = PathView;

    open spec fn view(&self) -> PathView {
        PathView { local_part: self.local_part@, domain: self.domain@ }
    }
}

impl DeepView for Path {
    type V = PathView;

    open spec fn deep_view(&self) -> PathView {
        self@
    }
}

impl Clone for Path {
    fn clone(&self) -> (r: Self)
        ensures
            r@ == self@,
    {
        Path { local_part: self.local_part.clone(), domain: self.domain.clone() }
    }
}

impl Path {
    /// Appends the mailbox between angle brackets.
    pub fn write_to(&self, out: &mut String)
        ensures
            final(out)@ == old(out)@ + self@.text(),
    {
        proof {
            reveal_strlit("<");
            reveal_strlit("@");
            reveal_strlit(">");
        }
        out.append("<");
        out.append(self.local_part.as_str());
        out.append("@");
        self.domain.write_to(out);
        out.append(">");
        assert(out@ =~= old(out)@ + self@.text());
    }

    /// The mailbox between angle brackets.
    pub fn to_string(&self) -> (r: String)
        ensures
            r@ == self@.text(),
    {
        let mut out = String::new();
        self.write_to(&mut out);
        assert(out@ =~= self@.text());
        out
    }
}

/// The envelope sender: a mailbox, or nothing for a notification that
/// must never be answered.
#[derive(Debug, PartialEq, Eq)]
pub enum ReversePath {
    Null,
    Regular(Path),
}

/// The mathematical value of a `ReversePath`.
pub enum ReversePathView {
    Null,
    Regular(PathView),
}

impl ReversePathView {
    /// The sender as it is written in a command; the null sender is an
    /// empty pair of angle brackets.
    pub open spec fn text(self) -> Seq<char> {
        match self {
            ReversePathView::Null => seq!['<', '>'],
            ReversePathView::Regular(path) => path.text(),
        }
    }
}

impl View for ReversePath {
    type V = ReversePathView;

    open spec fn view(&self) -> ReversePathView {
        match self {
            ReversePath::Null => ReversePathView::Null,
            ReversePath::Regular(path) => ReversePathView::Regular(path@),
        }
    }
}

impl DeepView for ReversePath {
    type V = ReversePathView;

    open spec fn deep_view(&self) -> ReversePathView {
        self@
    }
}

impl Clone for ReversePath {
    fn clone(&self) -> (r: Self)
        ensures
            r@ == self@,
    {
        match self {
            ReversePath::Null => ReversePath::Null,
            ReversePath::Regular(path) => ReversePath::Regular(path.clone()),
        }
    }
}

impl ReversePath {
    /// Appends the sender as it is written in a command.
    pub fn write_to(&self, out: &mut String)
        ensures
            final(out)@ == old(out)@ + self@.text(),
    {
        proof {
            reveal_strlit("<>");
        }
        match self {
            ReversePath::Null => {
                out.append("<>");
            },
            ReversePath::Regular(path) => {
                path.write_to(out);
            },
        }
        assert(out@ =~= old(out)@ + self@.text());
    }

    /// The sender as it is written in a command.
    pub fn to_string(&self) -> (r: String)
        ensures
            r@ == self@.text(),
    {
        let mut out = String::new();
        self.write_to(&mut out);
        assert(out@ =~= self@.text());
        out
    }
}

/// An envelope recipient: the postmaster of the receiving host, or a
/// mailbox.
#[derive(Debug, PartialEq, Eq)]
pub enum ForwardPath {
    Postmaster,
    Regular(Path),
}

/// The mathematical value of a `ForwardPath`.
pub enum ForwardPathView {
    Postmaster,
    Regular(PathView),
}

impl ForwardPathView {
    /// The recipient as it is written in a command.
    pub open spec fn text(self) -> Seq<char> {
        match self {
            ForwardPathView::Postmaster => "<Postmaster>"@,
            ForwardPathView::Regular(path) => path.text(),
        }
    }
}

impl View for ForwardPath {
    type V = ForwardPathView;

    open spec fn view(&self) -> ForwardPathView {
        match self {
            ForwardPath::Postmaster => ForwardPathView::Postmaster,
            ForwardPath::Regular(path) => ForwardPathView::Regular(path@),
        }
    }
}

impl DeepView for ForwardPath {
    type V = ForwardPathView;

    open spec fn deep_view(&self) -> ForwardPathView {
        self@
    }
}

impl Clone for ForwardPath {
    fn clone(&self) -> (r: Self)
        ensures
            r@ == self@,
    {
        match self {
            ForwardPath::Postmaster => ForwardPath::Postmaster,
            ForwardPath::Regular(path) => ForwardPath::Regular(path.clone()),
        }
    }
}

impl ForwardPath {
    /// Whether the recipient is the postmaster, which is always handled
    /// by the receiving host itself.
    pub fn is_postmaster(&self) -> (r: bool)
        ensures
            r == (self@ is Postmaster),
    {
        match self {
            ForwardPath::Postmaster => true,
            ForwardPath::Regular(_) => false,
        }
    }

    /// Appends the recipient as it is written in a command.
    pub fn write_to(&self, out: &mut String)
        ensures
            final(out)@ == old(out)@ + self@.text(),
    {
        match self {
            ForwardPath::Postmaster => {
                out.append("<Postmaster>");
            },
            ForwardPath::Regular(path) => {
                path.write_to(out);
            },
        }
        assert(out@ =~= old(out)@ + self@.text());
    }

    /// The recipient as it is written in a command.
    pub fn to_string(&self) -> (r: String)
        ensures
            r@ == self@.text(),
    {
        let mut out = String::new();
        self.write_to(&mut out);
        assert(out@ =~= self@.text());
        out
    }
}

} // verus!
