//! Engine configuration: resampling quality and the options fixed at startup.

use vstd::prelude::*;
use vstd::string::*;

verus! {

/// Resampling quality tiers.
#[derive(Debug, Clone, Copy, PartialEq, Eq, Structural)]
pub enum ResampleQuality {
    Low,
    Standard,
    High,
    UltraHigh,
}

/// Options loaded once at startup.
#[derive(Debug, Clone)]
pub struct AppConfig {
    pub target_samplerate: Option<u32>,
    pub resample_quality: ResampleQuality,
    pub use_cache: bool,
    pub preemptive_resample: bool,
    pub cache_dir: Option<String>,
    pub eq_type: String,
}

/// The quality a tag stands for, the tag given as bytes: `low`, `std` and
/// `uhq` name their tiers, and anything else means high quality.
pub open spec fn quality_of_tag(tag: Seq<u8>) -> ResampleQuality {
    if tag == seq![108u8, 111u8, 119u8] {
        ResampleQuality::Low
    } else if tag == seq![115u8, 116u8, 100u8] {
        ResampleQuality::Standard
    } else if tag == seq![117u8, 104u8, 113u8] {
        ResampleQuality::UltraHigh
    } else {
        ResampleQuality::High
    }
}

/// The lower-case form of an ASCII byte.
pub open spec fn ascii_lower(b: u8) -> u8 {
    if 65 <= b <= 90 {
        (b + 32) as u8
    } else {
        b
    }
}

/// The text reads `true`, in any mix of upper and lower case.
pub open spec fn reads_true(text: Seq<u8>) -> bool {
    &&& text.len() == 4
    &&& ascii_lower(text[0]) == 116
    &&& ascii_lower(text[1]) == 114
    &&& ascii_lower(text[2]) == 117
    &&& ascii_lower(text[3]) == 101
}

impl ResampleQuality {
    /// Reads a quality tag.
    pub fn from_tag(tag: &[u8]) -> (q: Self)
        ensures
            q == quality_of_tag(tag@),
    {
        if tag.len() != 3 {
            return ResampleQuality::High;
        }
        let a: u8 = tag[0];
        let b: u8 = tag[1];
        let c: u8 = tag[2];
        proof {
            assert(tag@ =~= seq![a, b, c]);
            assert(seq![a, b, c][0] == a && seq![a, b, c][1] == b && seq![a, b, c][2] == c);
            assert(seq![108u8, 111u8, 119u8][0] == 108 && seq![108u8, 111u8, 119u8][1] == 111
                && seq![108u8, 111u8, 119u8][2] == 119);
            assert(seq![115u8, 116u8, 100u8][0] == 115 && seq![115u8, 116u8, 100u8][1] == 116
                && seq![115u8, 116u8, 100u8][2] == 100);
            assert(seq![117u8, 104u8, 113u8][0] == 117 && seq![117u8, 104u8, 113u8][1] == 104
                && seq![117u8, 104u8, 113u8][2] == 113);
        }
        if a == 108 && b == 111 && c == 119 {
            assert(tag@ =~= seq![108u8, 111u8, 119u8]);
            ResampleQuality::Low
        } else if a == 115 && b == 116 && c == 100 {
            assert(tag@ =~= seq![115u8, 116u8, 100u8]);
            ResampleQuality::Standard
        } else if a == 117 && b == 104 && c == 113 {
            assert(tag@ =~= seq![117u8, 104u8, 113u8]);
            ResampleQuality::UltraHigh
        } else {
            ResampleQuality::High
        }
    }

    /// The one-byte tag that stands for the quality in a cache key.
    pub fn cache_tag(self) -> (t: u8)
        ensures
            t == quality_tag(self),
    {
        match self {
            ResampleQuality::Low => 0,
            ResampleQuality::Standard => 1,
            ResampleQuality::High => 2,
            ResampleQuality::UltraHigh => 3,
        }
    }
}

/// The cache-key byte of each quality.
pub open spec fn quality_tag(q: ResampleQuality) -> u8 {
    match q {
        ResampleQuality::Low => 0,
        ResampleQuality::Standard => 1,
        ResampleQuality::High => 2,
        ResampleQuality::UltraHigh => 3,
    }
}

impl Default for ResampleQuality {
    fn default() -> (q: Self)
        ensures
            q == ResampleQuality::High,
    {
        ResampleQuality::High
    }
}

/// Reads a switch: on exactly when the text reads `true` in any case; an
/// absent switch keeps its default.
pub fn read_flag(text: Option<&[u8]>, default: bool) -> (on: bool)
    ensures
        on == (match text {
            Some(t) => reads_true(t@),
            None => default,
        }),
{
    match text {
        None => default,
        Some(t) => {
            if t.len() != 4 {
                false
            } else {
                lower(t[0]) == 116 && lower(t[1]) == 114 && lower(t[2]) == 117 && lower(t[3])
                    == 101
            }
        },
    }
}

fn lower(b: u8) -> (l: u8)
    ensures
        l == ascii_lower(b),
{
    if 65 <= b && b <= 90 {
        b + 32
    } else {
        b
    }
}

impl Default for AppConfig {
    fn default() -> (c: Self)
        ensures
            c.target_samplerate is None,
            c.resample_quality == ResampleQuality::High,
            !c.use_cache,
            c.preemptive_resample,
            c.cache_dir is None,
            c.eq_type@ == "IIR"@,
    {
        AppConfig {
            target_samplerate: None,
            resample_quality: ResampleQuality::High,
            use_cache: false,
            preemptive_resample: true,
            cache_dir: None,
            eq_type: String::from_str("IIR"),
        }
    }
}

impl AppConfig {
    /// Builds the configuration from the settings as they were read: each
    /// absent setting keeps its default.
    pub fn from_settings(
        target_samplerate: Option<u32>,
        quality_tag: Option<&[u8]>,
        use_cache: Option<&[u8]>,
        preemptive_resample: Option<&[u8]>,
        cache_dir: Option<String>,
        eq_type: Option<String>,
    ) -> (c: Self)
        ensures
            c.target_samplerate == target_samplerate,
            c.resample_quality == (match quality_tag {
                Some(t) => quality_of_tag(t@),
                None => ResampleQuality::High,
            }),
            c.use_cache == (match use_cache {
                Some(t) => reads_true(t@),
                None => false,
            }),
            c.preemptive_resample == (match preemptive_resample {
                Some(t) => reads_true(t@),
                None => true,
            }),
            c.cache_dir == cache_dir,
            c.eq_type@ == (match eq_type {
                Some(t) => t@,
                None => "IIR"@,
            }),
    {
        let resample_quality = match quality_tag {
            Some(t) => ResampleQuality::from_tag(t),
            None => ResampleQuality::High,
        };
        let eq = match eq_type {
            Some(t) => t,
            None => String::from_str("IIR"),
        };
        AppConfig {
            target_samplerate,
            resample_quality,
            use_cache: read_flag(use_cache, false),
            preemptive_resample: read_flag(preemptive_resample, true),
            cache_dir,
            eq_type: eq,
        }
    }
}

} // verus!
