//! Semantic versions: the numbers and labels of a version as plain values, the
//! total order on them, and the calls into the `semver` crate that parse,
//! compare and print them.

use semver::{BuildMetadata, Prerelease};
use std::cmp::Ordering;
use vstd::prelude::*;
use vstd::string::*;

use crate::error::{ErrorView, UpdaterError};

verus! {

/// The mathematical value of a version: three numbers and two labels.
/// An empty label means that the version carries none.
pub struct VersionView {
    pub major: nat,
    pub minor: nat,
    pub patch: nat,
    pub pre: Seq<char>,
    pub build: Seq<char>,
}

/// A character that may stand inside a label identifier: `0-9`, `A-Z`, `a-z`, `-`.
pub open spec fn is_identifier_char(c: char) -> bool {
    ('0' <= c && c <= '9') || ('A' <= c && c <= 'Z') || ('a' <= c && c <= 'z') || c == '-'
}

/// `label[from..to]` is one whole dot-separated identifier of `label`.
pub open spec fn is_identifier_at(label: Seq<char>, from: int, to: int) -> bool {
    &&& 0 <= from < to <= label.len()
    &&& (from == 0 || label[from - 1] == '.')
    &&& (to == label.len() || label[to] == '.')
    &&& forall|k: int| from <= k < to ==> label[k] != '.'
}

/// Every character of `label[from..to]` is a decimal digit.
pub open spec fn all_digits(label: Seq<char>, from: int, to: int) -> bool {
    forall|k: int| from <= k < to ==> '0' <= #[trigger] label[k] && label[k] <= '9'
}

/// The syntax of build metadata: empty, or identifiers separated by single
/// dots, none of them empty, made of identifier characters only.
pub open spec fn valid_build_label(label: Seq<char>) -> bool {
    &&& forall|i: int|
        0 <= i < label.len() ==> is_identifier_char(#[trigger] label[i]) || label[i] == '.'
    &&& label.len() > 0 ==> label.first() != '.' && label.last() != '.'
    &&& forall|i: int| 0 < i < label.len() ==> !(label[i - 1] == '.' && #[trigger] label[i] == '.')
}

/// The syntax of a pre-release label: that of build metadata, and no
/// identifier made of digits alone starts with a superfluous zero.
pub open spec fn valid_prerelease_label(label: Seq<char>) -> bool {
    &&& valid_build_label(label)
    &&& forall|from: int, to: int|
        #[trigger] is_identifier_at(label, from, to) && all_digits(label, from, to) && to - from > 1
            ==> label[from] != '0'
}

/// How two versions with the same three numbers, both with a pre-release
/// label or both without, stand to each other by their labels: negative,
/// zero or positive as the first is less than, equal to or greater than the
/// second. This is what the ordering of `semver::Version` returns for them.
pub uninterp spec fn label_order(
    a_pre: Seq<char>,
    a_build: Seq<char>,
    b_pre: Seq<char>,
    b_build: Seq<char>,
) -> int;

/// What `semver::Version::parse` makes of a text: the version it reads, or
/// the message of the error it reports.
pub uninterp spec fn semver_parse(text: Seq<char>) -> Result<VersionView, Seq<char>>;

/// The decimal digit for a number below ten.
pub open spec fn digit_char(d: nat) -> char {
    if d == 0 {
        '0'
    } else if d == 1 {
        '1'
    } else if d == 2 {
        '2'
    } else if d == 3 {
        '3'
    } else if d == 4 {
        '4'
    } else if d == 5 {
        '5'
    } else if d == 6 {
        '6'
    } else if d == 7 {
        '7'
    } else if d == 8 {
        '8'
    } else {
        '9'
    }
}

/// A number written in base ten without leading zeros.
pub open spec fn decimal(n: nat) -> Seq<char>
    decreases n,
{
    if n < 10 {
        seq![digit_char(n)]
    } else {
        decimal(n / 10).push(digit_char(n % 10))
    }
}

impl VersionView {
    /// Both labels obey their syntax.
    pub open spec fn labels_valid(self) -> bool {
        valid_prerelease_label(self.pre) && valid_build_label(self.build)
    }

    /// The three numbers agree.
    pub open spec fn same_numbers(self, other: VersionView) -> bool {
        self.major == other.major && self.minor == other.minor && self.patch == other.patch
    }

    /// The total order on versions: `-1`, `0` or `1` as `self` is less than,
    /// equal to or greater than `other`. The numbers decide from left to
    /// right; with equal numbers a pre-release is less than the release;
    /// what is left is decided by the labels.
    pub open spec fn order(self, other: VersionView) -> int {
        if self.major != other.major {
            if self.major < other.major { -1 } else { 1 }
        } else if self.minor != other.minor {
            if self.minor < other.minor { -1 } else { 1 }
        } else if self.patch != other.patch {
            if self.patch < other.patch { -1 } else { 1 }
        } else if self.pre.len() == 0 && other.pre.len() > 0 {
            1
        } else if self.pre.len() > 0 && other.pre.len() == 0 {
            -1
        } else {
            label_order(self.pre, self.build, other.pre, other.build)
        }
    }

    /// `self` is not greater than `other`.
    pub open spec fn le(self, other: VersionView) -> bool {
        self.order(other) <= 0
    }

    /// `self` is strictly greater than `other`.
    pub open spec fn gt(self, other: VersionView) -> bool {
        self.order(other) > 0
    }

    /// The text of a version: `major.minor.patch`, then `-` and the
    /// pre-release label if there is one, then `+` and the build metadata if
    /// there is any.
    pub open spec fn text(self) -> Seq<char> {
        decimal(self.major) + seq!['.'] + decimal(self.minor) + seq!['.'] + decimal(self.patch) + (
        if self.pre.len() > 0 {
            seq!['-'] + self.pre
        } else {
            Seq::<char>::empty()
        }) + (if self.build.len() > 0 {
            seq!['+'] + self.build
        } else {
            Seq::<char>::empty()
        })
    }
}

/// A semantic version. Values come from [`Version::parse`] or
/// [`Version::new`] only, so their labels always obey the label syntax.
#[derive(Debug)]
pub struct Version {
    major: u64,
    minor: u64,
    patch: u64,
    pre: String,
    build: String,
}

impl View for Version {
    type V = VersionView;

    closed spec fn view(&self) -> VersionView {
        VersionView {
            major: self.major as nat,
            minor: self.minor as nat,
            patch: self.patch as nat,
            pre: self.pre@,
            build: self.build@,
        }
    }
}

impl Clone for Version {
    fn clone(&self) -> (copy: Self)
        ensures
            copy == *self,
    {
        Version {
            major: self.major,
            minor: self.minor,
            patch: self.patch,
            pre: self.pre.clone(),
            build: self.build.clone(),
        }
    }
}

/// Calls `semver::Version::parse` and hands back the fields of what it read,
/// or the text of its error. Trusted: the result is `semver_parse` of the
/// text, and the labels of a version that was read obey the label syntax.
#[verifier::external_body]
fn semver_read(text: &str) -> (read: Result<Version, String>)
    ensures
        match read {
            Ok(version) => semver_parse(text@) == Ok::<VersionView, Seq<char>>(version@)
                && version@.labels_valid(),
            Err(message) => semver_parse(text@) == Err::<VersionView, Seq<char>>(message@),
        },
{
    match semver::Version::parse(text) {
        Ok(v) => {
            let (pre, build) = (v.pre.as_str().to_string(), v.build.as_str().to_string());
            Ok(Version { major: v.major, minor: v.minor, patch: v.patch, pre, build })
        },
        Err(e) => Err(e.to_string()),
    }
}

/// Compares two versions with the `Ord` implementation of
/// `semver::Version`. Trusted: the result is `order` of the two values, a
/// number from -1 to 1, which for equal numbers and labels of the same
/// presence is `label_order`; swapping the arguments negates it; and the
/// order is transitive over all versions with valid labels.
#[verifier::external_body]
fn semver_compare(a: &Version, b: &Version) -> (r: i8)
    requires
        a@.labels_valid(),
        b@.labels_valid(),
    ensures
        r == a@.order(b@),
        a@.same_numbers(b@) && (a@.pre.len() > 0) == (b@.pre.len() > 0) ==> r == label_order(
            a@.pre,
            a@.build,
            b@.pre,
            b@.build,
        ),
        -1 <= r <= 1,
        b@.order(a@) == -r,
        forall|c: VersionView|
            c.labels_valid() && #[trigger] c.order(a@) <= 0 && r <= 0 ==> c.order(b@) <= 0,
{
    let pre = Prerelease::new(&a.pre).unwrap();
    let build = BuildMetadata::new(&a.build).unwrap();
    let x = semver::Version { major: a.major, minor: a.minor, patch: a.patch, pre, build };
    let pre = Prerelease::new(&b.pre).unwrap();
    let build = BuildMetadata::new(&b.build).unwrap();
    let y = semver::Version { major: b.major, minor: b.minor, patch: b.patch, pre, build };
    match x.cmp(&y) {
        Ordering::Less => -1,
        Ordering::Equal => 0,
        Ordering::Greater => 1,
    }
}

/// Prints a version with the `Display` of `semver::Version`. Trusted: the
/// result is `text` of the value.
#[verifier::external_body]
fn semver_print(v: &Version) -> (out: String)
    requires
        v@.labels_valid(),
    ensures
        out@ == v@.text(),
{
    let pre = Prerelease::new(&v.pre).unwrap();
    let build = BuildMetadata::new(&v.build).unwrap();
    let x = semver::Version { major: v.major, minor: v.minor, patch: v.patch, pre, build };
    x.to_string()
}

impl Version {
    /// The invariant of the type: both labels obey their syntax.
    pub open spec fn wf(&self) -> bool {
        self@.labels_valid()
    }

    /// The release `major.minor.patch`, without labels.
    pub fn new(major: u64, minor: u64, patch: u64) -> (version: Version)
        ensures
            version.wf(),
            version@ == (VersionView {
                major: major as nat,
                minor: minor as nat,
                patch: patch as nat,
                pre: Seq::<char>::empty(),
                build: Seq::<char>::empty(),
            }),
    {
        Version { major, minor, patch, pre: String::new(), build: String::new() }
    }

    /// Reads a version from its text. Fails with `VersionParseError`, carrying
    /// the parser's message, exactly on the texts that are no semantic version.
    pub fn parse(text: &str) -> (read: Result<Version, UpdaterError>)
        ensures
            match semver_parse(text@) {
                Ok(value) => read matches Ok(version) && version@ == value && version.wf(),
                Err(message) => read matches Err(error) && error@
                    == ErrorView::VersionParseError(message),
            },
    {
        match semver_read(text) {
            Ok(version) => Ok(version),
            Err(message) => Err(UpdaterError::VersionParseError(message)),
        }
    }

    pub fn major(&self) -> (n: u64)
        ensures
            n == self@.major,
    {
        self.major
    }

    pub fn minor(&self) -> (n: u64)
        ensures
            n == self@.minor,
    {
        self.minor
    }

    pub fn patch(&self) -> (n: u64)
        ensures
            n == self@.patch,
    {
        self.patch
    }

    /// The pre-release label; empty for a release.
    pub fn pre(&self) -> (label: &str)
        ensures
            label@ == self@.pre,
    {
        self.pre.as_str()
    }

    /// The build metadata; empty if there is none.
    pub fn build(&self) -> (label: &str)
        ensures
            label@ == self@.build,
    {
        self.build.as_str()
    }

    /// Where `self` stands to `other` in the total order: -1, 0 or 1. The
    /// call also teaches its caller the laws of the order at these two
    /// versions: swapping them negates the result, and whatever is not
    /// greater than `self` is not greater than `other` either when `self` is
    /// not greater than `other`.
    pub fn compare(&self, other: &Version) -> (r: i8)
        requires
            self.wf(),
            other.wf(),
        ensures
            r == self@.order(other@),
            -1 <= r <= 1,
            other@.order(self@) == -r,
            forall|c: VersionView|
                c.labels_valid() && #[trigger] c.order(self@) <= 0 && r <= 0 ==> c.order(other@)
                    <= 0,
    {
        semver_compare(self, other)
    }

    /// Whether `self` is strictly greater than `other`.
    pub fn is_newer_than(&self, other: &Version) -> (newer: bool)
        requires
            self.wf(),
            other.wf(),
        ensures
            newer == self@.gt(other@),
    {
        semver_compare(self, other) > 0
    }

    /// The text of the version, as it stands in file names and reports.
    pub fn to_string(&self) -> (out: String)
        requires
            self.wf(),
        ensures
            out@ == self@.text(),
    {
        semver_print(self)
    }
}

} // verus!
