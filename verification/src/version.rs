//! Vulkan API versions.

use vstd::prelude::*;

verus! {

/// A version of the Vulkan API.
#[derive(Debug, Clone, Copy, PartialEq, Eq, Structural)]
pub struct ApiVersion {
    pub major: u32,
    pub minor: u32,
    pub patch: u32,
}

/// The version that `raw` packs: seven bits of major, ten of minor and twelve of patch number.
pub open spec fn unpacked(raw: u32) -> ApiVersion {
    ApiVersion {
        major: (raw >> 22u32) & 0x7fu32,
        minor: (raw >> 12u32) & 0x3ffu32,
        patch: raw & 0xfffu32,
    }
}

/// The packed form of a version whose numbers fit.
pub open spec fn packed(v: ApiVersion) -> Option<u32> {
    if v.major <= 0x3ff && v.minor <= 0x3ff && v.patch <= 0xfff {
        Some((v.major << 22u32) | (v.minor << 12u32) | v.patch)
    } else {
        None
    }
}

/// Whether `a` is an earlier version than `b`.
pub open spec fn earlier(a: ApiVersion, b: ApiVersion) -> bool {
    a.major < b.major || (a.major == b.major && (a.minor < b.minor || (a.minor == b.minor && a.patch
        < b.patch)))
}

/// `vulkano::Version::from`: takes the three numbers out of a packed version.
#[verifier::external_body]
fn unpack_version(raw: u32) -> (r: ApiVersion)
    ensures
        r == unpacked(raw),
{
    let v = vulkano::Version::from(raw);
    ApiVersion { major: v.major, minor: v.minor, patch: v.patch }
}

/// `u32::try_from` of a `vulkano::Version`: packs the three numbers, if major and minor have at
/// most ten bits and patch has at most twelve.
#[verifier::external_body]
fn pack_version(v: ApiVersion) -> (r: Option<u32>)
    ensures
        r == packed(v),
{
    u32::try_from(vulkano::Version { major: v.major, minor: v.minor, patch: v.patch }).ok()
}

impl ApiVersion {
    pub fn major_minor(major: u32, minor: u32) -> (r: ApiVersion)
        ensures
            r == (ApiVersion { major, minor, patch: 0 }),
    {
        ApiVersion { major, minor, patch: 0 }
    }

    pub fn from_raw(raw: u32) -> (r: ApiVersion)
        ensures
            r == unpacked(raw),
    {
        unpack_version(raw)
    }

    pub fn to_raw(&self) -> (r: Option<u32>)
        ensures
            r == packed(*self),
    {
        pack_version(*self)
    }

    pub fn is_earlier(&self, other: &ApiVersion) -> (r: bool)
        ensures
            r == earlier(*self, *other),
    {
        self.major < other.major || (self.major == other.major && (self.minor < other.minor || (
        self.minor == other.minor && self.patch < other.patch)))
    }

    /// The earlier of two versions.
    pub fn or_earlier(self, other: ApiVersion) -> (r: ApiVersion)
        ensures
            r == (if earlier(other, self) {
                other
            } else {
                self
            }),
    {
        if other.is_earlier(&self) {
            other
        } else {
            self
        }
    }
}

/// A version with a major number of at most seven bits comes back from its packed form.
pub proof fn law_version_round_trip(v: ApiVersion)
    requires
        v.major <= 0x7f,
        v.minor <= 0x3ff,
        v.patch <= 0xfff,
    ensures
        packed(v) matches Some(raw) && unpacked(raw) == v,
{
    let a: u32 = v.major;
    let b: u32 = v.minor;
    let c: u32 = v.patch;
    assert((((a << 22u32) | (b << 12u32) | c) >> 22u32) & 0x7fu32 == a && (((a << 22u32) | (b
        << 12u32) | c) >> 12u32) & 0x3ffu32 == b && ((a << 22u32) | (b << 12u32) | c) & 0xfffu32
        == c) by (bit_vector)
        requires
            a <= 0x7f,
            b <= 0x3ff,
            c <= 0xfff,
    ;
}

/// Of two versions one is earlier unless they are the same, and never both.
pub proof fn law_versions_are_ordered(a: ApiVersion, b: ApiVersion, c: ApiVersion)
    ensures
        earlier(a, b) || earlier(b, a) || a == b,
        !(earlier(a, b) && earlier(b, a)),
        earlier(a, b) && earlier(b, c) ==> earlier(a, c),
{
}

/// The number that stands for a version when versions are compared.
pub open spec fn rank(v: ApiVersion) -> int {
    v.major * 0x1_0000_0000_0000_0000 + v.minor * 0x1_0000_0000 + v.patch
}

/// The major number counts first, then the minor, then the patch number: a version is earlier
/// exactly if its rank is less.
pub proof fn law_earlier_is_less(a: ApiVersion, b: ApiVersion)
    ensures
        earlier(a, b) <==> rank(a) < rank(b),
{
}

/// Versions are compared, made and chosen from by their numbers.
pub proof fn law_versions_are_compared(
    a: &ApiVersion,
    b: &ApiVersion,
    less: bool,
    first: ApiVersion,
    major: u32,
    minor: u32,
    made: ApiVersion,
)
    requires
        call_ensures(ApiVersion::is_earlier, (a, b), less),
        call_ensures(ApiVersion::or_earlier, (*a, *b), first),
        call_ensures(ApiVersion::major_minor, (major, minor), made),
    ensures
        less <==> rank(*a) < rank(*b),
        first == *a || first == *b,
        rank(first) <= rank(*a) && rank(first) <= rank(*b),
        made.major == major && made.minor == minor && made.patch == 0,
{
}

/// A version is packed by weight: four million times its major number, four thousand times its
/// minor number and its patch number, in powers of two. It can be packed exactly if major and
/// minor number have at most ten bits and the patch number at most twelve.
pub proof fn law_packed_by_weight(v: ApiVersion)
    ensures
        packed(v) is Some <==> v.major < 1024 && v.minor < 1024 && v.patch < 4096,
        packed(v) matches Some(raw) ==> raw == v.major * 0x40_0000 + v.minor * 0x1000 + v.patch,
        forall|raw: u32| #[trigger]
            unpacked(raw) == (ApiVersion {
                major: ((raw / 0x40_0000) % 128) as u32,
                minor: ((raw / 0x1000) % 1024) as u32,
                patch: (raw % 4096) as u32,
            }),
{
    let a: u32 = v.major;
    let b: u32 = v.minor;
    let c: u32 = v.patch;
    if a < 1024 && b < 1024 && c < 4096 {
        assert((a << 22u32) | (b << 12u32) | c == ((a * 0x40_0000 + b * 0x1000 + c) as u32))
            by (bit_vector)
            requires
                a < 1024,
                b < 1024,
                c < 4096,
        ;
    }
    assert forall|raw: u32| #[trigger] unpacked(raw) == (ApiVersion {
        major: ((raw / 0x40_0000) % 128) as u32,
        minor: ((raw / 0x1000) % 1024) as u32,
        patch: (raw % 4096) as u32,
    }) by {
        assert((raw >> 22u32) & 0x7fu32 == (raw / 0x40_0000) % 128) by (bit_vector);
        assert((raw >> 12u32) & 0x3ffu32 == (raw / 0x1000) % 1024) by (bit_vector);
        assert(raw & 0xfffu32 == raw % 4096) by (bit_vector);
    }
}

/// Versions are packed and unpacked as the law of weights says.
pub proof fn law_versions_are_packed(raw: u32, v: &ApiVersion, a: ApiVersion, b: Option<u32>)
    requires
        call_ensures(ApiVersion::from_raw, (raw,), a),
        call_ensures(ApiVersion::to_raw, (v,), b),
    ensures
        a == unpacked(raw),
        b == packed(*v),
{
}

} // verus!
