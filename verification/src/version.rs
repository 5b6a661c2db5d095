use vstd::prelude::*;

verus! {

/// A three-component version record, derived from the primitive's raw
/// version integer.
#[derive(Clone, Copy, Debug, Default, PartialEq, Eq, Structural)]
pub struct Version {
    /// The major version.
    pub major: u8,
    /// The minor version.
    pub minor: u8,
    /// The patch version.
    pub patch: u8,
}

/// The two decimal encodings that primitive generations use for the raw
/// version integer. The shim must use the encoding matching the primitive
/// it is built against: mixing them silently yields wrong version reports.
#[derive(Clone, Copy, Debug, PartialEq, Eq, Structural)]
pub enum VersionEncoding {
    /// The raw integer is three base-10 digits: `major = (raw/100)%10`,
    /// `minor = (raw/10)%10`, `patch = raw%10`.
    Digits,
    /// The raw integer splits as `major = raw/1000`,
    /// `minor = (raw/100)%10`, `patch = raw%100`.
    Thousands,
}

/// What a raw version integer decodes to under an encoding.
pub open spec fn spec_decode_version(raw: u32, enc: VersionEncoding) -> Version {
    match enc {
        VersionEncoding::Digits => Version {
            major: ((raw / 100) % 10) as u8,
            minor: ((raw / 10) % 10) as u8,
            patch: (raw % 10) as u8,
        },
        VersionEncoding::Thousands => Version {
            major: (raw / 1000) as u8,
            minor: ((raw / 100) % 10) as u8,
            patch: (raw % 100) as u8,
        },
    }
}

/// Whether every decoded component of `raw` fits its `u8` field.
pub open spec fn raw_version_fits(raw: u32, enc: VersionEncoding) -> bool {
    match enc {
        VersionEncoding::Digits => true,
        VersionEncoding::Thousands => raw / 1000 <= 255,
    }
}

impl Version {
    /// Decodes a raw version integer under the given encoding.
    pub fn decode(raw: u32, enc: VersionEncoding) -> (v: Version)
        requires
            raw_version_fits(raw, enc),
        ensures
            v == spec_decode_version(raw, enc),
    {
        match enc {
            VersionEncoding::Digits => Version {
                major: ((raw / 100) % 10) as u8,
                minor: ((raw / 10) % 10) as u8,
                patch: (raw % 10) as u8,
            },
            VersionEncoding::Thousands => Version {
                major: (raw / 1000) as u8,
                minor: ((raw / 100) % 10) as u8,
                patch: (raw % 100) as u8,
            },
        }
    }
}

} // verus!
