use vstd::prelude::*;
use std::cmp::Ordering;
use std::str::FromStr;

verus! {

#[verifier::external_type_specification]
#[verifier::external_body]
pub struct ExSemverError(semver::Error);

/// A semantic version as the `semver` crate parses it: three numbers, the
/// pre-release text after `-` and the build metadata after `+` (each empty
/// when absent).
pub struct Version {
    pub major: u64,
    pub minor: u64,
    pub patch: u64,
    pub pre: String,
    pub build: String,
}

/// The mathematical value of a [`Version`].
pub struct VersionView {
    pub major: u64,
    pub minor: u64,
    pub patch: u64,
    pub pre: Seq<char>,
    pub build: Seq<char>,
}

impl View for Version {
    type V = VersionView;

    open spec fn view(&self) -> VersionView {
        VersionView {
            major: self.major,
            minor: self.minor,
            patch: self.patch,
            pre: self.pre@,
            build: self.build@,
        }
    }
}

/// The result of comparing two values.
#[derive(PartialEq, Eq, Structural, Clone, Copy, Debug)]
pub enum Order {
    Less,
    Equal,
    Greater,
}

impl Order {
    /// The order seen from the other side.
    pub open spec fn reverse(self) -> Order {
        match self {
            Order::Less => Order::Greater,
            Order::Equal => Order::Equal,
            Order::Greater => Order::Less,
        }
    }

    /// The sign of the order: -1, 0 or 1.
    pub open spec fn sign(self) -> int {
        match self {
            Order::Less => -1,
            Order::Equal => 0,
            Order::Greater => 1,
        }
    }
}

/// What `semver::Version::from_str` makes of a text: the parsed version, or
/// `None` where it returns an error.
pub uninterp spec fn semver_parse(text: Seq<char>) -> Option<VersionView>;

/// The order that `semver::Prerelease`'s `Ord` puts two pre-release texts in.
pub uninterp spec fn prerelease_order(a: Seq<char>, b: Seq<char>) -> Order;

/// The order that `semver::BuildMetadata`'s `Ord` puts two build texts in.
pub uninterp spec fn build_order(a: Seq<char>, b: Seq<char>) -> Order;

/// `v` is what `semver` parses from some text.
pub open spec fn is_semver(v: VersionView) -> bool {
    exists|t: Seq<char>| #[trigger] semver_parse(t) == Some(v)
}

/// The order of two integers.
pub open spec fn number_order(x: u64, y: u64) -> Order {
    if x < y {
        Order::Less
    } else if x == y {
        Order::Equal
    } else {
        Order::Greater
    }
}

/// The order of two versions: by major, minor and patch number, then by
/// pre-release, then by build metadata, as `semver::Version`'s `Ord`.
pub open spec fn version_order(a: VersionView, b: VersionView) -> Order {
    if a.major != b.major {
        number_order(a.major, b.major)
    } else if a.minor != b.minor {
        number_order(a.minor, b.minor)
    } else if a.patch != b.patch {
        number_order(a.patch, b.patch)
    } else if prerelease_order(a.pre, b.pre) != Order::Equal {
        prerelease_order(a.pre, b.pre)
    } else {
        build_order(a.build, b.build)
    }
}

/// What the plugin answers for two version texts: 1 when only the first
/// parses or it is the greater, -1 when only the second parses or it is the
/// greater, 0 when neither parses or both are equal.
pub open spec fn semver_compare_result(t1: Seq<char>, t2: Seq<char>) -> int {
    match (semver_parse(t1), semver_parse(t2)) {
        (Some(a), Some(b)) => version_order(a, b).sign(),
        (Some(_), None) => 1,
        (None, None) => 0,
        (None, Some(_)) => -1,
    }
}

/// Parses `text` with `semver::Version::from_str` and copies the parsed
/// numbers and the texts of its pre-release and build metadata. Claimed:
/// the result is `Ok` exactly where `semver_parse` gives a version, and then
/// holds that version.
#[verifier::external_body]
fn parse_version(text: &str) -> (r: Result<Version, semver::Error>)
    ensures
        r is Ok <==> semver_parse(text@) is Some,
        r matches Ok(v) ==> semver_parse(text@) == Some(v@),
{
    match semver::Version::from_str(text) {
        Ok(v) => Ok(Version {
            major: v.major,
            minor: v.minor,
            patch: v.patch,
            pre: v.pre.as_str().to_string(),
            build: v.build.as_str().to_string(),
        }),
        Err(e) => Err(e),
    }
}

/// Compares the pre-releases of two parsed versions with
/// `semver::Prerelease`'s `Ord::cmp` (rebuilding each with
/// `Prerelease::new`, which accepts every pre-release text that
/// `Version::from_str` produced). Claimed: the result is `prerelease_order`;
/// as `Ord` requires, swapping the arguments reverses it, it is `Equal`
/// exactly for equal texts (the crate's `Eq` compares the texts), and the
/// order is transitive: when `a` is greater than `b`, it is greater than
/// every pre-release of a parsed version that `b` is not less than.
#[verifier::external_body]
fn compare_prerelease(a: &Version, b: &Version) -> (r: Order)
    requires
        is_semver(a@),
        is_semver(b@),
    ensures
        r == prerelease_order(a.pre@, b.pre@),
        prerelease_order(b.pre@, a.pre@) == r.reverse(),
        (r == Order::Equal) <==> (a.pre@ == b.pre@),
        forall|w: VersionView|
            #![trigger prerelease_order(b.pre@, w.pre)]
            is_semver(w) && r == Order::Greater && prerelease_order(b.pre@, w.pre) != Order::Less
                ==> prerelease_order(a.pre@, w.pre) == Order::Greater,
{
    let x = semver::Prerelease::new(&a.pre).expect("pre-release of a parsed version");
    let y = semver::Prerelease::new(&b.pre).expect("pre-release of a parsed version");
    match x.cmp(&y) {
        Ordering::Less => Order::Less,
        Ordering::Equal => Order::Equal,
        Ordering::Greater => Order::Greater,
    }
}

/// Compares the build metadata of two parsed versions with
/// `semver::BuildMetadata`'s `Ord::cmp` (rebuilding each with
/// `BuildMetadata::new`, which accepts every build text that
/// `Version::from_str` produced). Claimed: the result is `build_order`;
/// swapping the arguments reverses it, it is `Equal` exactly for equal
/// texts, and the order is transitive as `Ord` requires.
#[verifier::external_body]
fn compare_build(a: &Version, b: &Version) -> (r: Order)
    requires
        is_semver(a@),
        is_semver(b@),
    ensures
        r == build_order(a.build@, b.build@),
        build_order(b.build@, a.build@) == r.reverse(),
        (r == Order::Equal) <==> (a.build@ == b.build@),
        forall|w: VersionView|
            #![trigger build_order(b.build@, w.build)]
            is_semver(w) && r == Order::Greater && build_order(b.build@, w.build) != Order::Less
                ==> build_order(a.build@, w.build) == Order::Greater,
{
    let x = semver::BuildMetadata::new(&a.build).expect("build metadata of a parsed version");
    let y = semver::BuildMetadata::new(&b.build).expect("build metadata of a parsed version");
    match x.cmp(&y) {
        Ordering::Less => Order::Less,
        Ordering::Equal => Order::Equal,
        Ordering::Greater => Order::Greater,
    }
}

/// A text that is not a semantic version.
#[derive(PartialEq, Eq, Structural, Clone, Copy, Debug)]
pub struct InvalidVersion;

/// Parses a semantic version as the `semver` crate does.
pub fn parse_semver(text: &str) -> (r: Result<Version, InvalidVersion>)
    ensures
        r is Ok <==> semver_parse(text@) is Some,
        r matches Ok(v) ==> semver_parse(text@) == Some(v@) && is_semver(v@),
{
    match parse_version(text) {
        Ok(v) => Ok(v),
        Err(_) => Err(InvalidVersion),
    }
}

fn compare_numbers(x: u64, y: u64) -> (r: Order)
    ensures
        r == number_order(x, y),
{
    if x < y {
        Order::Less
    } else if x == y {
        Order::Equal
    } else {
        Order::Greater
    }
}

/// Compares two parsed versions in `semver`'s total order.
pub fn compare_versions(a: &Version, b: &Version) -> (r: Order)
    requires
        is_semver(a@),
        is_semver(b@),
    ensures
        r == version_order(a@, b@),
        version_order(b@, a@) == r.reverse(),
        (r == Order::Equal) <==> (a@ == b@),
        forall|w: VersionView|
            #![trigger version_order(b@, w)]
            is_semver(w) && r == Order::Greater && version_order(b@, w) != Order::Less
                ==> version_order(a@, w) == Order::Greater,
{
    if a.major != b.major {
        compare_numbers(a.major, b.major)
    } else if a.minor != b.minor {
        compare_numbers(a.minor, b.minor)
    } else if a.patch != b.patch {
        compare_numbers(a.patch, b.patch)
    } else {
        let pre = compare_prerelease(a, b);
        match pre {
            Order::Equal => compare_build(a, b),
            _ => pre,
        }
    }
}

/// Compares two semantic-version texts: 1 if the first is greater, -1 if
/// the second is, 0 if they are equal; a text that does not parse counts as
/// less than one that does, and two such texts count as equal.
pub fn semver_compare(v1: &str, v2: &str) -> (r: i32)
    ensures
        r == semver_compare_result(v1@, v2@),
        r == -semver_compare_result(v2@, v1@),
        v1@ == v2@ ==> r == 0,
        forall|t: Seq<char>|
            #![trigger semver_compare_result(v2@, t)]
            r >= 0 && semver_compare_result(v2@, t) >= 0 ==> semver_compare_result(v1@, t) >= 0
                && (r == 1 || semver_compare_result(v2@, t) == 1 ==> semver_compare_result(v1@, t)
                == 1),
{
    match (parse_semver(v1), parse_semver(v2)) {
        (Ok(_), Err(_)) => 1,
        (Err(_), Err(_)) => 0,
        (Err(_), Ok(_)) => -1,
        (Ok(a), Ok(b)) => match compare_versions(&a, &b) {
            Order::Greater => 1,
            Order::Equal => 0,
            Order::Less => -1,
        },
    }
}

/// The major number decides first: a version with a greater major number
/// is the greater, whatever follows.
pub proof fn law_major_decides(a: VersionView, b: VersionView)
    requires
        a.major > b.major,
    ensures
        version_order(a, b) == Order::Greater,
        version_order(b, a) == Order::Less,
{
}

/// With equal major numbers, the minor number decides, whatever follows.
pub proof fn law_minor_decides_next(a: VersionView, b: VersionView)
    requires
        a.major == b.major,
        a.minor > b.minor,
    ensures
        version_order(a, b) == Order::Greater,
        version_order(b, a) == Order::Less,
{
}

/// With equal major and minor numbers, the patch number decides, whatever
/// follows.
pub proof fn law_patch_decides_next(a: VersionView, b: VersionView)
    requires
        a.major == b.major,
        a.minor == b.minor,
        a.patch > b.patch,
    ensures
        version_order(a, b) == Order::Greater,
        version_order(b, a) == Order::Less,
{
}

/// Only with equal numbers do the pre-release and build texts matter.
pub proof fn law_texts_decide_last(a: VersionView, b: VersionView)
    requires
        a.major == b.major,
        a.minor == b.minor,
        a.patch == b.patch,
    ensures
        version_order(a, b) == (if prerelease_order(a.pre, b.pre) != Order::Equal {
            prerelease_order(a.pre, b.pre)
        } else {
            build_order(a.build, b.build)
        }),
{
}

/// A text that parses is greater than one that does not; two texts that do
/// not parse are equal.
pub proof fn law_unparsable_lowest(t1: Seq<char>, t2: Seq<char>)
    ensures
        semver_parse(t1) is Some && semver_parse(t2) is None ==> semver_compare_result(t1, t2) == 1,
        semver_parse(t1) is None && semver_parse(t2) is Some ==> semver_compare_result(t1, t2) == -1,
        semver_parse(t1) is None && semver_parse(t2) is None ==> semver_compare_result(t1, t2) == 0,
        semver_parse(t1) is Some && semver_parse(t2) is Some ==> semver_compare_result(t1, t2)
            == version_order(semver_parse(t1)->0, semver_parse(t2)->0).sign(),
{
}

} // verus!
