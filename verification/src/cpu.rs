//! SIMD capabilities of the CPU: the highest level available and the
//! reports shown to the user.
//!
//! Which features the running CPU has is read by the program around the
//! library; here a `CpuFeatures` value holds the answers as flags.

use vstd::prelude::*;
use crate::text::joined;

verus! {

/// Detected CPU features relevant to SIMD acceleration.
#[derive(Debug, Clone, Copy, PartialEq, Eq, Structural)]
pub struct CpuFeatures {
    /// SSE4.1 — baseline SIMD for most 64-bit CPUs (2007+)
    pub sse41: bool,
    /// SSE4.2 — adds string comparison instructions (2008+)
    pub sse42: bool,
    /// AVX — 256-bit vector registers (2011+)
    pub avx: bool,
    /// AVX2 — 256-bit integer SIMD (2013+)
    pub avx2: bool,
    /// AVX-512 F — 512-bit floating-point
    pub avx512f: bool,
    /// AVX-512 BW — 512-bit byte/word operations
    pub avx512bw: bool,
    /// AVX-512 VL — 128/256-bit vector length extensions
    pub avx512vl: bool,
    /// NEON — ARM SIMD (all 64-bit ARM CPUs)
    pub neon: bool,
}

/// SIMD level hierarchy, from lowest to highest.
#[derive(Debug, Clone, Copy, PartialEq, Eq, Structural, PartialOrd, Ord, Hash)]
pub enum SimdLevel {
    Scalar,
    Sse41,
    Sse42,
    Neon,
    Avx,
    Avx2,
    Avx512,
}

/// The architecture the program was built for, which decides the feature
/// section of the detailed report.
#[derive(Debug, Clone, Copy, PartialEq, Eq, Structural)]
pub enum TargetArch {
    X86_64,
    Aarch64,
    Other,
}

/// The display name of a level.
pub open spec fn simd_name(l: SimdLevel) -> Seq<char> {
    match l {
        SimdLevel::Scalar => "Scalar"@,
        SimdLevel::Sse41 => "SSE4.1"@,
        SimdLevel::Sse42 => "SSE4.2"@,
        SimdLevel::Neon => "NEON"@,
        SimdLevel::Avx => "AVX"@,
        SimdLevel::Avx2 => "AVX2"@,
        SimdLevel::Avx512 => "AVX-512"@,
    }
}

/// The highest level that a set of features reaches: AVX-512 (F and BW),
/// then AVX2, AVX, SSE4.2, SSE4.1, NEON, and none.
pub open spec fn highest_level(f: CpuFeatures) -> SimdLevel {
    if f.avx512f && f.avx512bw {
        SimdLevel::Avx512
    } else if f.avx2 {
        SimdLevel::Avx2
    } else if f.avx {
        SimdLevel::Avx
    } else if f.sse42 {
        SimdLevel::Sse42
    } else if f.sse41 {
        SimdLevel::Sse41
    } else if f.neon {
        SimdLevel::Neon
    } else {
        SimdLevel::Scalar
    }
}

/// The names of the features present, from the highest down.
pub open spec fn feature_names(f: CpuFeatures) -> Seq<Seq<char>> {
    (if f.avx512f && f.avx512bw { seq!["AVX-512"@] } else { seq![] })
    + (if f.avx2 { seq!["AVX2"@] } else { seq![] })
    + (if f.avx { seq!["AVX"@] } else { seq![] })
    + (if f.sse42 { seq!["SSE4.2"@] } else { seq![] })
    + (if f.sse41 { seq!["SSE4.1"@] } else { seq![] })
    + (if f.neon { seq!["NEON"@] } else { seq![] })
}

/// The one-line summary: the feature names joined by ` | `, or `No SIMD`.
pub open spec fn summary_text(f: CpuFeatures) -> Seq<char> {
    if feature_names(f).len() == 0 {
        "No SIMD"@
    } else {
        joined(feature_names(f), " | "@)
    }
}

/// `Yes` or `No`.
pub open spec fn yes_no(b: bool) -> Seq<char> {
    if b { "Yes"@ } else { "No"@ }
}

/// The feature section of the detailed report for an architecture.
pub open spec fn arch_lines(f: CpuFeatures, arch: TargetArch) -> Seq<Seq<char>> {
    match arch {
        TargetArch::X86_64 => seq![
            "x86_64 Features:"@,
            "  SSE4.1:     "@ + yes_no(f.sse41),
            "  SSE4.2:     "@ + yes_no(f.sse42),
            "  AVX:        "@ + yes_no(f.avx),
            "  AVX2:       "@ + yes_no(f.avx2),
            "  AVX-512 F:  "@ + yes_no(f.avx512f),
            "  AVX-512 BW: "@ + yes_no(f.avx512bw),
            "  AVX-512 VL: "@ + yes_no(f.avx512vl),
        ],
        TargetArch::Aarch64 => seq!["AArch64 Features:"@, "  NEON:       "@ + yes_no(f.neon)],
        TargetArch::Other => seq![],
    }
}

/// The operations that benefit from a level, one line each.
pub open spec fn accelerated_lines(l: SimdLevel) -> Seq<Seq<char>> {
    match l {
        SimdLevel::Avx512 | SimdLevel::Avx2 | SimdLevel::Avx => seq![
            "  Hashing (blake3)    \u{2014} 512/256-bit SIMD"@,
            "  Byte search (memchr) \u{2014} 256-bit SIMD"@,
            "  Pattern match (regex) \u{2014} 256-bit SIMD"@,
            if l == SimdLevel::Avx512 {
                "  JSON parsing (simd-json) \u{2014} 512-bit SIMD"@
            } else {
                "  JSON parsing (simd-json) \u{2014} 256-bit SIMD"@
            },
            "  Word counting (bytecount) \u{2014} 256-bit SIMD"@,
        ],
        SimdLevel::Sse42 | SimdLevel::Sse41 => seq![
            "  Hashing (blake3)    \u{2014} 128-bit SIMD"@,
            "  Byte search (memchr) \u{2014} 128-bit SIMD"@,
            "  Pattern match (regex) \u{2014} 128-bit SIMD"@,
            "  JSON parsing (simd-json) \u{2014} 128-bit SIMD"@,
            "  Word counting (bytecount) \u{2014} 128-bit SIMD"@,
        ],
        SimdLevel::Neon => seq![
            "  Hashing (blake3)    \u{2014} NEON 128-bit"@,
            "  Byte search (memchr) \u{2014} NEON 128-bit"@,
            "  Pattern match (regex) \u{2014} NEON 128-bit"@,
            "  Word counting (bytecount) \u{2014} NEON 128-bit"@,
        ],
        SimdLevel::Scalar => seq!["  No SIMD acceleration available \u{2014} using scalar fallback"@],
    }
}

/// The lines of the detailed report.
pub open spec fn report_lines(f: CpuFeatures, arch: TargetArch) -> Seq<Seq<char>> {
    seq!["SIMD Level: "@ + simd_name(highest_level(f)), Seq::empty()] + arch_lines(f, arch)
        + seq![Seq::empty(), "SIMD-accelerated operations:"@] + accelerated_lines(highest_level(f))
}

impl SimdLevel {
    /// The display name of the level (`Scalar` for no SIMD).
    pub fn label(&self) -> (r: &'static str)
        ensures
            r@ == simd_name(*self),
    {
        match self {
            SimdLevel::Scalar => "Scalar",
            SimdLevel::Sse41 => "SSE4.1",
            SimdLevel::Sse42 => "SSE4.2",
            SimdLevel::Neon => "NEON",
            SimdLevel::Avx => "AVX",
            SimdLevel::Avx2 => "AVX2",
            SimdLevel::Avx512 => "AVX-512",
        }
    }
}

/// Appends the pieces, joined by `sep`, to `out`.
fn push_joined(out: &mut String, pieces: &Vec<&'static str>, sep: &str)
    ensures
        final(out)@ == old(out)@ + joined(pieces@.map_values(|p: &'static str| p@), sep@),
{
    let ghost ps = pieces@.map_values(|p: &'static str| p@);
    let mut i: usize = 0;
    while i < pieces.len()
        invariant
            i <= pieces@.len(),
            ps == pieces@.map_values(|p: &'static str| p@),
            out@ == old(out)@ + joined(ps.take(i as int), sep@),
        decreases pieces@.len() - i,
    {
        assert(ps.take(i + 1).drop_last() =~= ps.take(i as int));
        if i > 0 {
            out.append(sep);
        } else {
            assert(joined(ps.take(0), sep@) =~= Seq::<char>::empty());
        }
        out.append(pieces[i]);
        i = i + 1;
    }
    assert(ps.take(pieces@.len() as int) =~= ps);
}

impl CpuFeatures {
    /// Returns the highest SIMD level detected.
    ///
    /// Order: AVX-512 > AVX2 > AVX > SSE4.2 > SSE4.1 > NEON > scalar
    pub fn simd_level(&self) -> (r: SimdLevel)
        ensures
            r == highest_level(*self),
    {
        if self.avx512f && self.avx512bw {
            SimdLevel::Avx512
        } else if self.avx2 {
            SimdLevel::Avx2
        } else if self.avx {
            SimdLevel::Avx
        } else if self.sse42 {
            SimdLevel::Sse42
        } else if self.sse41 {
            SimdLevel::Sse41
        } else if self.neon {
            SimdLevel::Neon
        } else {
            SimdLevel::Scalar
        }
    }

    /// Short label for the highest SIMD level ("AVX-512", "AVX2", ... or "Scalar").
    pub fn simd_label(&self) -> (r: &'static str)
        ensures
            r@ == simd_name(highest_level(*self)),
    {
        self.simd_level().label()
    }

    /// One-line summary of all detected SIMD features, e.g. "AVX2 | SSE4.2 | SSE4.1".
    pub fn summary(&self) -> (r: String)
        ensures
            r@ == summary_text(*self),
    {
        let mut features: Vec<&'static str> = Vec::new();
        if self.avx512f && self.avx512bw {
            features.push("AVX-512");
        }
        if self.avx2 {
            features.push("AVX2");
        }
        if self.avx {
            features.push("AVX");
        }
        if self.sse42 {
            features.push("SSE4.2");
        }
        if self.sse41 {
            features.push("SSE4.1");
        }
        if self.neon {
            features.push("NEON");
        }
        assert(features@.map_values(|p: &'static str| p@) =~= feature_names(*self));
        if features.len() == 0 {
            "No SIMD".to_owned()
        } else {
            let mut out = String::new();
            push_joined(&mut out, &features, " | ");
            out
        }
    }

    /// Detailed multi-line report, with the feature section of the given
    /// architecture.
    pub fn detailed_report(&self, arch: TargetArch) -> (r: String)
        ensures
            r@ == joined(report_lines(*self, arch), "\n"@),
    {
        let mut lines: Vec<String> = Vec::new();
        let mut first = "SIMD Level: ".to_owned();
        first.append(self.simd_label());
        lines.push(first);
        lines.push(String::new());
        match arch {
            TargetArch::X86_64 => {
                lines.push("x86_64 Features:".to_owned());
                lines.push(labelled("  SSE4.1:     ", self.sse41));
                lines.push(labelled("  SSE4.2:     ", self.sse42));
                lines.push(labelled("  AVX:        ", self.avx));
                lines.push(labelled("  AVX2:       ", self.avx2));
                lines.push(labelled("  AVX-512 F:  ", self.avx512f));
                lines.push(labelled("  AVX-512 BW: ", self.avx512bw));
                lines.push(labelled("  AVX-512 VL: ", self.avx512vl));
            },
            TargetArch::Aarch64 => {
                lines.push("AArch64 Features:".to_owned());
                lines.push(labelled("  NEON:       ", self.neon));
            },
            TargetArch::Other => {},
        }
        lines.push(String::new());
        lines.push("SIMD-accelerated operations:".to_owned());
        let level = self.simd_level();
        match level {
            SimdLevel::Avx512 | SimdLevel::Avx2 | SimdLevel::Avx => {
                lines.push("  Hashing (blake3)    \u{2014} 512/256-bit SIMD".to_owned());
                lines.push("  Byte search (memchr) \u{2014} 256-bit SIMD".to_owned());
                lines.push("  Pattern match (regex) \u{2014} 256-bit SIMD".to_owned());
                if level == SimdLevel::Avx512 {
                    lines.push("  JSON parsing (simd-json) \u{2014} 512-bit SIMD".to_owned());
                } else {
                    lines.push("  JSON parsing (simd-json) \u{2014} 256-bit SIMD".to_owned());
                }
                lines.push("  Word counting (bytecount) \u{2014} 256-bit SIMD".to_owned());
            },
            SimdLevel::Sse42 | SimdLevel::Sse41 => {
                lines.push("  Hashing (blake3)    \u{2014} 128-bit SIMD".to_owned());
                lines.push("  Byte search (memchr) \u{2014} 128-bit SIMD".to_owned());
                lines.push("  Pattern match (regex) \u{2014} 128-bit SIMD".to_owned());
                lines.push("  JSON parsing (simd-json) \u{2014} 128-bit SIMD".to_owned());
                lines.push("  Word counting (bytecount) \u{2014} 128-bit SIMD".to_owned());
            },
            SimdLevel::Neon => {
                lines.push("  Hashing (blake3)    \u{2014} NEON 128-bit".to_owned());
                lines.push("  Byte search (memchr) \u{2014} NEON 128-bit".to_owned());
                lines.push("  Pattern match (regex) \u{2014} NEON 128-bit".to_owned());
                lines.push("  Word counting (bytecount) \u{2014} NEON 128-bit".to_owned());
            },
            SimdLevel::Scalar => {
                lines.push(
                    "  No SIMD acceleration available \u{2014} using scalar fallback".to_owned(),
                );
            },
        }
        assert(lines@.map_values(|l: String| l@) =~= report_lines(*self, arch));
        join_lines(&lines)
    }
}

/// `label` followed by `Yes` or `No`.
fn labelled(label: &str, b: bool) -> (r: String)
    ensures
        r@ == label@ + yes_no(b),
{
    let mut s = label.to_owned();
    if b {
        s.append("Yes");
    } else {
        s.append("No");
    }
    s
}

/// The lines joined with line feeds.
pub fn join_lines(lines: &Vec<String>) -> (r: String)
    ensures
        r@ == joined(lines@.map_values(|l: String| l@), "\n"@),
{
    let ghost ls = lines@.map_values(|l: String| l@);
    let mut out = String::new();
    let mut i: usize = 0;
    while i < lines.len()
        invariant
            i <= lines@.len(),
            ls == lines@.map_values(|l: String| l@),
            out@ == joined(ls.take(i as int), "\n"@),
        decreases lines@.len() - i,
    {
        assert(ls.take(i + 1).drop_last() =~= ls.take(i as int));
        if i > 0 {
            out.append("\n");
        } else {
            assert(joined(ls.take(0), "\n"@) =~= Seq::<char>::empty());
        }
        out.append(lines[i].as_str());
        i = i + 1;
    }
    assert(ls.take(lines@.len() as int) =~= ls);
    out
}

/// Whenever some SIMD level is available, the one-line summary begins with
/// the name of the highest level, the one the status bar shows.
pub proof fn law_summary_starts_with_level(f: CpuFeatures)
    requires
        highest_level(f) != SimdLevel::Scalar,
    ensures
        feature_names(f).len() > 0,
        feature_names(f)[0] == simd_name(highest_level(f)),
{
}

} // verus!
