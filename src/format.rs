//! The output encodings a caller can ask for by name.
use vstd::prelude::*;
use vstd::string::StrSliceExecFns;

verus! {

/// How the finished raster is encoded.
#[derive(Clone, Copy, Debug, PartialEq, Eq, Structural)]
pub enum OutputFormat {
    /// JPEG at the given quality (0 to 100; higher keeps more detail). Alpha is dropped.
    Jpeg(u8),
    /// Lossless WebP, alpha kept.
    WebP,
}

/// Largest JPEG quality.
pub const MAX_QUALITY: u8 = 100;

/// The lower-case form of a string.
pub uninterp spec fn lower_of(s: Seq<char>) -> Seq<char>;

/// Whether every character is ASCII.
pub open spec fn all_ascii(s: Seq<char>) -> bool {
    forall|i: int| 0 <= i < s.len() ==> (#[trigger] s[i]) as u32 <= 127
}

/// An ASCII character in lower case.
pub open spec fn ascii_lower_char(c: char) -> char {
    if 'A' <= c && c <= 'Z' { ((c as u8) + 32) as u8 as char } else { c }
}

/// Each ASCII letter of a string in lower case.
pub open spec fn ascii_lower(s: Seq<char>) -> Seq<char> {
    Seq::new(s.len(), |i: int| ascii_lower_char(s[i]))
}

/// Relies on `str::to_lowercase`: its result depends on the characters
/// alone, and ASCII text is lowered letter by letter as by ASCII rules.
#[verifier::external_body]
fn lowercase(s: &str) -> (r: String)
    ensures
        r@ == lower_of(s@),
        all_ascii(s@) ==> r@ == ascii_lower(s@),
{
    s.to_lowercase()
}

/// The format that a lower-case name stands for: "jpg" or "jpeg" for JPEG at
/// `quality` (capped at 100), "webp" for WebP, nothing else.
pub open spec fn format_for(lowered: Seq<char>, quality: u8) -> Option<OutputFormat> {
    if lowered == "jpg"@ || lowered == "jpeg"@ {
        Some(OutputFormat::Jpeg(if quality > MAX_QUALITY { MAX_QUALITY } else { quality }))
    } else if lowered == "webp"@ {
        Some(OutputFormat::WebP)
    } else {
        None
    }
}

/// Whether two strings hold the same characters.
pub fn same_text(a: &str, b: &str) -> (r: bool)
    ensures
        r == (a@ == b@),
{
    let n = a.unicode_len();
    if n != b.unicode_len() {
        return false;
    }
    let mut i: usize = 0;
    while i < n
        invariant
            n == a@.len(),
            n == b@.len(),
            i <= n,
            forall|j: int| 0 <= j < i ==> a@[j] == b@[j],
        decreases n - i,
    {
        if a.get_char(i) != b.get_char(i) {
            return false;
        }
        i = i + 1;
    }
    assert(a@ =~= b@);
    true
}

/// The format named by an already lower-cased name.
pub fn format_from_lowered(lowered: &str, quality: u8) -> (r: Option<OutputFormat>)
    ensures
        r == format_for(lowered@, quality),
{
    proof {
        reveal_strlit("jpg");
        reveal_strlit("jpeg");
        reveal_strlit("webp");
    }
    if same_text(lowered, "jpg") || same_text(lowered, "jpeg") {
        Some(OutputFormat::Jpeg(if quality > MAX_QUALITY { MAX_QUALITY } else { quality }))
    } else if same_text(lowered, "webp") {
        Some(OutputFormat::WebP)
    } else {
        None
    }
}

/// The format named by `name`, in any letter case.
pub fn parse_format(name: &str, quality: u8) -> (r: Option<OutputFormat>)
    ensures
        r == format_for(lower_of(name@), quality),
        all_ascii(name@) ==> r == format_for(ascii_lower(name@), quality),
{
    let lowered = lowercase(name);
    format_from_lowered(lowered.as_str(), quality)
}

/// "jpg" names JPEG: lowering leaves it as it is.
pub proof fn lemma_jpg_is_lower()
    ensures
        all_ascii("jpg"@),
        ascii_lower("jpg"@) == "jpg"@,
{
    reveal_strlit("jpg");
    assert(ascii_lower("jpg"@) =~= "jpg"@);
}

} // verus!
