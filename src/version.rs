//! Concrete and requested versions, and how they are written as text.
use vstd::prelude::*;

use crate::error::{Error, Result};
use vstd::string::{StrSliceExecFns, StringExecFns};

verus! {

/// The integral part of a version specifier (e.g. the `3` or `10` of `3.10`).
pub type ComponentSize = u16;

/// The `major.minor` version of a Python executable.
#[derive(Copy, Clone, Debug, PartialEq, Eq, Structural, Hash, PartialOrd, Ord)]
pub struct ExactVersion {
    /// The major version, e.g. `3` of `3.10`.
    pub major: ComponentSize,
    /// The minor version, e.g. `10` of `3.10`.
    pub minor: ComponentSize,
}

/// `a` is an older version than `b`: smaller major, or equal major and
/// smaller minor.
pub open spec fn precedes(a: ExactVersion, b: ExactVersion) -> bool {
    a.major < b.major || (a.major == b.major && a.minor < b.minor)
}

impl ExactVersion {
    /// Construct an instance of [`ExactVersion`].
    pub fn new(major: ComponentSize, minor: ComponentSize) -> (r: Self)
        ensures
            r.major == major,
            r.minor == minor,
    {
        ExactVersion { major, minor }
    }

    /// Compares two versions by major, then by minor component.
    pub fn compare(&self, other: &Self) -> (r: std::cmp::Ordering)
        ensures
            r == std::cmp::Ordering::Less <==> precedes(*self, *other),
            r == std::cmp::Ordering::Greater <==> precedes(*other, *self),
            r == std::cmp::Ordering::Equal <==> *self == *other,
    {
        if self.major < other.major {
            std::cmp::Ordering::Less
        } else if self.major > other.major {
            std::cmp::Ordering::Greater
        } else if self.minor < other.minor {
            std::cmp::Ordering::Less
        } else if self.minor > other.minor {
            std::cmp::Ordering::Greater
        } else {
            std::cmp::Ordering::Equal
        }
    }
}


/// The version of Python being searched for.
#[derive(Clone, Copy, Debug, PartialEq, Eq, Structural, Hash)]
pub enum RequestedVersion {
    /// Any version of Python is acceptable.
    Any,
    /// A major version of Python is required (e.g. `3.x`).
    MajorOnly(ComponentSize),
    /// A specific `major.minor` version of Python is required (e.g. `3.9`).
    Exact(ComponentSize, ComponentSize),
}


/// An ASCII decimal digit.
pub open spec fn is_digit(c: char) -> bool {
    '0' <= c && c <= '9'
}

/// The number a run of decimal digits denotes.
pub open spec fn digits_value(s: Seq<char>) -> nat
    decreases s.len(),
{
    if s.len() == 0 {
        0
    } else {
        digits_value(s.drop_last()) * 10 + (s.last() as int - '0' as int) as nat
    }
}

/// The text of a component without the `+` sign that may lead it.
pub open spec fn unsigned_part(s: Seq<char>) -> Seq<char> {
    if s.len() > 0 && s[0] == '+' {
        s.drop_first()
    } else {
        s
    }
}

/// `s` is a version component: an optional `+`, then at least one decimal
/// digit, denoting a value that fits a [`ComponentSize`].
pub open spec fn is_component(s: Seq<char>) -> bool {
    let d = unsigned_part(s);
    &&& d.len() > 0
    &&& forall|i: int| 0 <= i < d.len() ==> is_digit(#[trigger] d[i])
    &&& digits_value(d) <= u16::MAX
}

/// The value of a version component.
pub open spec fn component_value(s: Seq<char>) -> nat {
    digits_value(unsigned_part(s))
}

/// The position of the first `.` in `s`, if any.
pub open spec fn first_dot(s: Seq<char>) -> Option<int>
    decreases s.len(),
{
    if s.len() == 0 {
        None
    } else if s[0] == '.' {
        Some(0)
    } else {
        match first_dot(s.drop_first()) {
            Some(i) => Some(i + 1),
            None => None,
        }
    }
}

/// The text before the first `.` of `s`.
pub open spec fn major_text(s: Seq<char>, dot: int) -> Seq<char> {
    s.subrange(0, dot)
}

/// The text after the first `.` of `s`.
pub open spec fn minor_text(s: Seq<char>, dot: int) -> Seq<char> {
    s.subrange(dot + 1, s.len() as int)
}

/// The version a `major.minor` string denotes, if it is one.
pub open spec fn exact_version_of(s: Seq<char>) -> Option<ExactVersion> {
    match first_dot(s) {
        Some(dot) => if is_component(major_text(s, dot)) && is_component(minor_text(s, dot)) {
            Some(
                ExactVersion {
                    major: component_value(major_text(s, dot)) as u16,
                    minor: component_value(minor_text(s, dot)) as u16,
                },
            )
        } else {
            None
        },
        None => None,
    }
}

/// `r` reports that `text` is not a version component.
pub open spec fn rejects_component<T>(r: Result<T>, text: Seq<char>) -> bool {
    r matches Err(Error::ParseVersionComponentError(_, t)) && t@ == text
}

/// `r` is what parsing `s` as `major.minor` gives: the version, or the
/// error for a missing `.`, else for the first of the two components that
/// is not a number.
pub open spec fn parses_exact<T>(s: Seq<char>, r: Result<T>, ok: T) -> bool {
    match first_dot(s) {
        None => r == Err::<T, Error>(Error::DotMissing),
        Some(dot) => if !is_component(major_text(s, dot)) {
            rejects_component(r, major_text(s, dot))
        } else if !is_component(minor_text(s, dot)) {
            rejects_component(r, minor_text(s, dot))
        } else {
            r == Ok::<T, Error>(ok)
        },
    }
}

proof fn lemma_first_dot_at(s: Seq<char>, i: int)
    requires
        0 <= i < s.len(),
        s[i] == '.',
        forall|j: int| 0 <= j < i ==> s[j] != '.',
    ensures
        first_dot(s) == Some(i),
    decreases i,
{
    if i > 0 {
        lemma_first_dot_at(s.drop_first(), i - 1);
    }
}

proof fn lemma_no_dot(s: Seq<char>)
    requires
        forall|j: int| 0 <= j < s.len() ==> s[j] != '.',
    ensures
        first_dot(s) is None,
    decreases s.len(),
{
    if s.len() > 0 {
        lemma_no_dot(s.drop_first());
    }
}

/// Relies on `u16`'s `FromStr` (`u16::from_str_radix` in base 10): it
/// accepts an optional `+` followed by decimal digits, and fails when the
/// text is anything else or the value exceeds `u16::MAX`.
#[verifier::external_body]
fn parse_component(s: &str) -> (r: std::result::Result<u16, std::num::ParseIntError>)
    ensures
        r is Ok <==> is_component(s@),
        r matches Ok(v) ==> v as nat == component_value(s@),
{
    s.parse::<u16>()
}

/// Finds the position, in characters, of the first `.` of `s`.
fn find_dot(s: &str) -> (r: Option<usize>)
    ensures
        r matches Some(i) ==> first_dot(s@) == Some(i as int) && i < s@.len(),
        r is None ==> first_dot(s@) is None,
{
    let n = s.unicode_len();
    let mut i: usize = 0;
    while i < n
        invariant
            n == s@.len(),
            i <= n,
            forall|j: int| 0 <= j < i ==> s@[j] != '.',
        decreases n - i,
    {
        if s.get_char(i) == '.' {
            proof {
                lemma_first_dot_at(s@, i as int);
            }
            return Some(i);
        }
        i = i + 1;
    }
    proof {
        lemma_no_dot(s@);
    }
    None
}

/// Parses one version component, reporting its text on failure.
fn parse_component_or_report(s: &str) -> (r: Result<u16>)
    ensures
        is_component(s@) ==> r == Ok::<u16, Error>(component_value(s@) as u16),
        !is_component(s@) ==> rejects_component(r, s@),
{
    match parse_component(s) {
        Ok(v) => Ok(v),
        Err(e) => Err(Error::ParseVersionComponentError(e, s.to_string())),
    }
}

impl ExactVersion {
    /// Parses a `major.minor` string. The text is split at its first `.`;
    /// each side must be a component, so a string with a second `.` fails on
    /// its minor side.
    pub fn from_str(version_string: &str) -> (r: Result<Self>)
        ensures
            parses_exact(
                version_string@,
                r,
                exact_version_of(version_string@).unwrap_or(ExactVersion { major: 0, minor: 0 }),
            ),
            r matches Ok(v) ==> exact_version_of(version_string@) == Some(v),
            r is Ok <==> exact_version_of(version_string@) is Some,
    {
        match find_dot(version_string) {
            Some(dot) => {
                let n = version_string.unicode_len();
                let major_str = version_string.substring_char(0, dot);
                let major = match parse_component_or_report(major_str) {
                    Ok(number) => number,
                    Err(e) => {
                        return Err(e);
                    },
                };
                let minor_str = version_string.substring_char(dot + 1, n);
                match parse_component_or_report(minor_str) {
                    Ok(minor) => Ok(ExactVersion { major, minor }),
                    Err(e) => Err(e),
                }
            },
            None => Err(Error::DotMissing),
        }
    }
}


/// The decimal digits of `n`, without leading zeros.
pub open spec fn decimal(n: nat) -> Seq<char>
    decreases n,
{
    if n < 10 {
        seq![(n + '0' as nat) as char]
    } else {
        decimal(n / 10).push(((n % 10) + '0' as nat) as char)
    }
}

/// Relies on the `Display` of `u16` (through `ToString`): the decimal
/// digits of the value, without sign or leading zeros.
#[verifier::external_body]
fn decimal_text(n: u16) -> (r: String)
    ensures
        r@ == decimal(n as nat),
{
    n.to_string()
}

/// The text `major.minor` of a version.
pub open spec fn version_text(v: ExactVersion) -> Seq<char> {
    decimal(v.major as nat) + seq!['.'] + decimal(v.minor as nat)
}

/// `v` satisfies the request `requested`.
pub open spec fn satisfies(v: ExactVersion, requested: RequestedVersion) -> bool {
    match requested {
        RequestedVersion::Any => true,
        RequestedVersion::MajorOnly(major) => v.major == major,
        RequestedVersion::Exact(major, minor) => v.major == major && v.minor == minor,
    }
}

impl ExactVersion {
    /// Tests whether this version satisfies the requested version.
    pub fn supports(&self, requested: RequestedVersion) -> (r: bool)
        ensures
            r == satisfies(*self, requested),
    {
        match requested {
            RequestedVersion::Any => true,
            RequestedVersion::MajorOnly(major_version) => self.major == major_version,
            RequestedVersion::Exact(major_version, minor_version) => {
                self.major == major_version && self.minor == minor_version
            },
        }
    }

    /// Formats the version as `major.minor`, e.g. `3.9`.
    pub fn to_string(&self) -> (r: String)
        ensures
            r@ == version_text(*self),
    {
        let mut text = decimal_text(self.major);
        let dot = ".";
        proof {
            reveal_strlit(".");
        }
        text.append(dot);
        let minor = decimal_text(self.minor);
        text.append(minor.as_str());
        text
    }
}

impl From<ExactVersion> for RequestedVersion {
    fn from(version: ExactVersion) -> (r: Self)
        ensures
            r == RequestedVersion::Exact(version.major, version.minor),
    {
        RequestedVersion::Exact(version.major, version.minor)
    }
}

impl vstd::std_specs::convert::FromSpecImpl<ExactVersion> for RequestedVersion {
    open spec fn obeys_from_spec() -> bool {
        true
    }

    open spec fn from_spec(v: ExactVersion) -> RequestedVersion {
        RequestedVersion::Exact(v.major, v.minor)
    }
}

/// The request a version string denotes, if it denotes one: empty for any
/// version, `major.minor` for an exact one, a lone component for a major
/// version.
pub open spec fn requested_version_of(s: Seq<char>) -> Option<RequestedVersion> {
    if s.len() == 0 {
        Some(RequestedVersion::Any)
    } else if first_dot(s) is Some {
        match exact_version_of(s) {
            Some(v) => Some(RequestedVersion::Exact(v.major, v.minor)),
            None => None,
        }
    } else if is_component(s) {
        Some(RequestedVersion::MajorOnly(component_value(s) as u16))
    } else {
        None
    }
}

/// The readable name of a request, e.g. `Python 3.9`.
pub open spec fn requested_text(requested: RequestedVersion) -> Seq<char> {
    match requested {
        RequestedVersion::Any => "Python"@,
        RequestedVersion::MajorOnly(major) => "Python "@ + decimal(major as nat),
        RequestedVersion::Exact(major, minor) => "Python "@ + version_text(
            ExactVersion { major, minor },
        ),
    }
}

impl RequestedVersion {
    /// Parses a version request: the empty string is [`RequestedVersion::Any`],
    /// a string with a `.` is parsed as an exact version, any other as a
    /// major version.
    pub fn from_str(version_string: &str) -> (r: Result<Self>)
        ensures
            r matches Ok(v) ==> requested_version_of(version_string@) == Some(v),
            r is Ok <==> requested_version_of(version_string@) is Some,
            version_string@.len() > 0 && first_dot(version_string@) is Some ==> parses_exact(
                version_string@,
                r,
                requested_version_of(version_string@).unwrap_or(RequestedVersion::Any),
            ),
            version_string@.len() > 0 && first_dot(version_string@) is None && !is_component(
                version_string@,
            ) ==> rejects_component(r, version_string@),
    {
        if version_string.is_empty() {
            Ok(RequestedVersion::Any)
        } else if find_dot(version_string).is_some() {
            match ExactVersion::from_str(version_string) {
                Ok(v) => Ok(RequestedVersion::Exact(v.major, v.minor)),
                Err(e) => Err(e),
            }
        } else {
            match parse_component_or_report(version_string) {
                Ok(number) => Ok(RequestedVersion::MajorOnly(number)),
                Err(e) => Err(e),
            }
        }
    }

    /// Formats the request as a readable name, e.g. `Python 3.9`.
    pub fn to_string(&self) -> (r: String)
        ensures
            r@ == requested_text(*self),
    {
        match *self {
            RequestedVersion::Any => "Python".to_string(),
            RequestedVersion::MajorOnly(major) => {
                let mut text = "Python ".to_string();
                let digits = decimal_text(major);
                text.append(digits.as_str());
                text
            },
            RequestedVersion::Exact(major, minor) => {
                let mut text = "Python ".to_string();
                let version = ExactVersion { major, minor }.to_string();
                text.append(version.as_str());
                text
            },
        }
    }

    /// The environment variable that names the default version for this
    /// request: `PY_PYTHON` for any version, `PY_PYTHON<major>` for a major
    /// version, none for an exact one.
    pub fn env_var(self) -> (r: Option<String>)
        ensures
            match self {
                RequestedVersion::Any => r matches Some(name) && name@ == "PY_PYTHON"@,
                RequestedVersion::MajorOnly(major) => r matches Some(name) && name@ == "PY_PYTHON"@
                    + decimal(major as nat),
                RequestedVersion::Exact(_, _) => r is None,
            },
    {
        match self {
            RequestedVersion::Any => Some("PY_PYTHON".to_string()),
            RequestedVersion::MajorOnly(major) => {
                let mut name = "PY_PYTHON".to_string();
                let digits = decimal_text(major);
                name.append(digits.as_str());
                Some(name)
            },
            RequestedVersion::Exact(_, _) => None,
        }
    }
}


proof fn lemma_first_dot_facts(s: Seq<char>)
    ensures
        first_dot(s) matches Some(k) ==> 0 <= k < s.len() && s[k] == '.' && forall|j: int|
            0 <= j < k ==> s[j] != '.',
        first_dot(s) is None ==> forall|j: int| 0 <= j < s.len() ==> s[j] != '.',
    decreases s.len(),
{
    if s.len() > 0 {
        lemma_first_dot_facts(s.drop_first());
        if s[0] != '.' {
            assert forall|j: int| 1 <= j < s.len() implies s[j] == s.drop_first()[j - 1] by {}
        }
    }
}

proof fn lemma_decimal(n: nat)
    ensures
        decimal(n).len() > 0,
        forall|i: int| 0 <= i < decimal(n).len() ==> is_digit(#[trigger] decimal(n)[i]),
        digits_value(decimal(n)) == n,
    decreases n,
{
    if n < 10 {
        assert(decimal(n).drop_last() =~= Seq::<char>::empty());
        assert(((n + '0' as nat) as char) as int == n + '0' as int);
        assert(digits_value(Seq::<char>::empty()) == 0);
        assert(digits_value(decimal(n)) == digits_value(decimal(n).drop_last()) * 10 + (
        decimal(n).last() as int - '0' as int) as nat);
    } else {
        lemma_decimal(n / 10);
        assert(decimal(n).drop_last() =~= decimal(n / 10));
        assert((((n % 10) + '0' as nat) as char) as int == (n % 10) + '0' as int);
        assert((n / 10) * 10 + n % 10 == n);
        assert(digits_value(decimal(n)) == digits_value(decimal(n).drop_last()) * 10 + (
        decimal(n).last() as int - '0' as int) as nat);
    }
}

proof fn lemma_component_of_decimal(n: nat)
    requires
        n <= u16::MAX,
    ensures
        is_component(decimal(n)),
        component_value(decimal(n)) == n,
{
    lemma_decimal(n);
    assert(is_digit(decimal(n)[0]));
}

/// Formatting a version and parsing the text back gives the same version.
pub proof fn lemma_format_then_parse(v: ExactVersion)
    ensures
        exact_version_of(version_text(v)) == Some(v),
{
    let major = decimal(v.major as nat);
    let minor = decimal(v.minor as nat);
    let s = version_text(v);
    lemma_decimal(v.major as nat);
    lemma_component_of_decimal(v.major as nat);
    lemma_component_of_decimal(v.minor as nat);
    assert forall|j: int| 0 <= j < major.len() implies s[j] != '.' by {
        assert(s[j] == major[j]);
        assert(is_digit(major[j]));
    }
    lemma_first_dot_at(s, major.len() as int);
    assert(major_text(s, major.len() as int) =~= major);
    assert(minor_text(s, major.len() as int) =~= minor);
}

/// For every `major.minor` string, parsing it, formatting the version and
/// parsing that text again gives the same major and minor numbers.
pub proof fn lemma_parse_format_round_trip(s: Seq<char>)
    requires
        exact_version_of(s) is Some,
    ensures
        exact_version_of(version_text(exact_version_of(s).unwrap())) == exact_version_of(s),
{
    lemma_format_then_parse(exact_version_of(s).unwrap());
}

/// A string with more than one `.` is not an exact version.
pub proof fn lemma_extra_dot_rejected(s: Seq<char>, i: int, j: int)
    requires
        0 <= i < j < s.len(),
        s[i] == '.',
        s[j] == '.',
    ensures
        exact_version_of(s) is None,
{
    lemma_first_dot_facts(s);
    let k = first_dot(s).unwrap();
    let minor = minor_text(s, k);
    let d = unsigned_part(minor);
    assert(minor[j - k - 1] == '.');
    if minor.len() > 0 && minor[0] == '+' {
        assert(d[j - k - 2] == '.');
        assert(!is_digit(d[j - k - 2]));
    } else {
        assert(d[j - k - 1] == '.');
        assert(!is_digit(d[j - k - 1]));
    }
}

/// Version order is a strict total order: irreflexive, asymmetric,
/// transitive, and any two distinct versions are ordered one way or the
/// other. It compares majors first, then minors, as numbers.
pub proof fn lemma_precedes_strict_total_order(a: ExactVersion, b: ExactVersion, c: ExactVersion)
    ensures
        !precedes(a, a),
        precedes(a, b) ==> !precedes(b, a),
        precedes(a, b) && precedes(b, c) ==> precedes(a, c),
        a != b ==> precedes(a, b) || precedes(b, a),
        precedes(a, b) <==> (a.major < b.major || (a.major == b.major && a.minor < b.minor)),
{
}


impl std::str::FromStr for ExactVersion {
    type Err = Error;

    fn from_str(version_string: &str) -> Result<Self> {
        ExactVersion::from_str(version_string)
    }
}

impl std::str::FromStr for RequestedVersion {
    type Err = Error;

    fn from_str(version_string: &str) -> Result<Self> {
        RequestedVersion::from_str(version_string)
    }
}


/// Reads a version request from a command-line flag such as `-3` or
/// `-3.10`: the leading `-` is stripped and the rest parsed. A flag that is
/// not a version request gives `None`, and the caller then searches for any
/// version.
pub fn parse_version_from_flag(flag: &str) -> (r: Option<RequestedVersion>)
    ensures
        flag@.len() > 0 && flag@[0] == '-' ==> r == requested_version_of(flag@.drop_first()),
        !(flag@.len() > 0 && flag@[0] == '-') ==> r is None,
{
    let n = flag.unicode_len();
    if n == 0 || flag.get_char(0) != '-' {
        return None;
    }
    let rest = flag.substring_char(1, n);
    assert(rest@ =~= flag@.drop_first());
    match RequestedVersion::from_str(rest) {
        Ok(version) => Some(version),
        Err(_) => None,
    }
}

} // verus!
