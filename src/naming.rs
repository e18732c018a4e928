use vstd::prelude::*;
use vstd::string::*;

use crate::pattern::{CssClassNameSegment, SegmentView, segments_view};

verus! {

/// The name under which a source document was handed in.
#[derive(Debug)]
pub enum FileName {
    /// A path on disk, as given.
    Real(String),
    /// A document without a file.
    Anon,
}

/// Everything the name generator needs for one file: the file's stem
/// (`None` for an anonymous document), a hash byte of the file name, and the
/// compiled pattern.
#[derive(Debug)]
pub struct CssModuleTransformConfig {
    pub file_stem: Option<String>,
    pub file_name_hash: u8,
    pub pattern: Vec<CssClassNameSegment>,
}

/// The sixteen lowercase hexadecimal digits, in order.
pub open spec fn hex_digits() -> Seq<char> {
    seq!['0', '1', '2', '3', '4', '5', '6', '7', '8', '9', 'a', 'b', 'c', 'd', 'e', 'f']
}

/// A byte as two lowercase hexadecimal digits.
pub open spec fn hex_byte(b: u8) -> Seq<char> {
    seq![hex_digits()[b as int / 16], hex_digits()[b as int % 16]]
}

/// What `[name]` stands for in an anonymous document.
pub open spec fn anon_text() -> Seq<char> {
    seq!['[', 'a', 'n', 'o', 'n', ']']
}

/// What one segment contributes to a generated name.
pub open spec fn segment_text(
    seg: SegmentView,
    stem: Option<Seq<char>>,
    hash: u8,
    local: Seq<char>,
) -> Seq<char> {
    match seg {
        SegmentView::Literal(t) => t,
        SegmentView::Name => match stem {
            Some(s) => s,
            None => anon_text(),
        },
        SegmentView::Local => local,
        SegmentView::Hash => hex_byte(hash),
    }
}

/// The name generated for `local`: the texts of the segments, in order.
pub open spec fn generated_name(
    segs: Seq<SegmentView>,
    stem: Option<Seq<char>>,
    hash: u8,
    local: Seq<char>,
) -> Seq<char>
    decreases segs.len(),
{
    if segs.len() == 0 {
        Seq::empty()
    } else {
        generated_name(segs.drop_last(), stem, hash, local) + segment_text(
            segs.last(),
            stem,
            hash,
            local,
        )
    }
}

pub open spec fn stem_view(stem: Option<String>) -> Option<Seq<char>> {
    match stem {
        Some(s) => Some(s@),
        None => None,
    }
}

/// Relies on `std::path::Path::file_stem`: the final component of the path
/// without its extension, or `None` where the path has no final component.
/// Nothing is claimed of its text: the rules for separators differ between
/// platforms.
#[verifier::external_body]
fn path_file_stem(path: &str) -> (r: Option<String>) {
    std::path::Path::new(path).file_stem().map(|s| s.to_string_lossy().into_owned())
}

/// Appends `b` as two lowercase hexadecimal digits.
fn push_hex_byte(buf: &mut String, b: u8)
    ensures
        final(buf)@ == old(buf)@ + hex_byte(b),
{
    let digits = "0123456789abcdef";
    proof {
        reveal_strlit("0123456789abcdef");
        assert(digits@ =~= hex_digits());
    }
    let hi = (b / 16) as usize;
    let lo = (b % 16) as usize;
    let h = digits.substring_char(hi, hi + 1);
    let l = digits.substring_char(lo, lo + 1);
    buf.append(h);
    buf.append(l);
    proof {
        assert(h@ =~= seq![hex_digits()[hi as int]]);
        assert(l@ =~= seq![hex_digits()[lo as int]]);
        assert(final(buf)@ =~= old(buf)@ + hex_byte(b));
    }
}

/// Determinism: two configurations with the same compiled pattern, file stem
/// and hash byte generate the same name for the same original name, however
/// often they are asked.
pub proof fn lemma_name_deterministic(
    a: CssModuleTransformConfig,
    b: CssModuleTransformConfig,
    local: Seq<char>,
)
    requires
        segments_view(a.pattern@) == segments_view(b.pattern@),
        stem_view(a.file_stem) == stem_view(b.file_stem),
        a.file_name_hash == b.file_name_hash,
    ensures
        generated_name(segments_view(a.pattern@), stem_view(a.file_stem), a.file_name_hash, local)
            == generated_name(
            segments_view(b.pattern@),
            stem_view(b.file_stem),
            b.file_name_hash,
            local,
        ),
{
}

impl CssModuleTransformConfig {
    /// Builds the configuration for a file. `None` where a real path has no
    /// file stem to put in place of `[name]`.
    pub fn new(file_name: &FileName, file_name_hash: u8, pattern: Vec<CssClassNameSegment>) -> (r:
        Option<CssModuleTransformConfig>)
        ensures
            match r {
                Some(c) => {
                    &&& c.file_name_hash == file_name_hash
                    &&& c.pattern@ == pattern@
                    &&& (c.file_stem is None <==> file_name is Anon)
                },
                None => file_name is Real,
            },
    {
        match file_name {
            FileName::Anon => Some(CssModuleTransformConfig { file_stem: None, file_name_hash, pattern }),
            FileName::Real(path) => match path_file_stem(path.as_str()) {
                Some(stem) => Some(
                    CssModuleTransformConfig { file_stem: Some(stem), file_name_hash, pattern },
                ),
                None => None,
            },
        }
    }

    /// The replacement name for the class or id `local`.
    pub fn new_name_for(&self, local: &str) -> (r: String)
        ensures
            r@ == generated_name(
                segments_view(self.pattern@),
                stem_view(self.file_stem),
                self.file_name_hash,
                local@,
            ),
    {
        let ghost segs = segments_view(self.pattern@);
        let ghost stem = stem_view(self.file_stem);
        let mut buf = String::new();
        let mut i: usize = 0;
        proof {
            assert(segs.subrange(0, 0) =~= Seq::<SegmentView>::empty());
        }
        while i < self.pattern.len()
            invariant
                i <= self.pattern@.len(),
                segs == segments_view(self.pattern@),
                stem == stem_view(self.file_stem),
                buf@ == generated_name(segs.subrange(0, i as int), stem, self.file_name_hash, local@),
            decreases self.pattern@.len() - i,
        {
            let ghost before = buf@;
            match &self.pattern[i] {
                CssClassNameSegment::Literal(s) => buf.append(s.as_str()),
                CssClassNameSegment::Name => match &self.file_stem {
                    Some(s) => buf.append(s.as_str()),
                    None => {
                        let anon = "[anon]";
                        proof {
                            reveal_strlit("[anon]");
                            assert(anon@ =~= anon_text());
                        }
                        buf.append(anon);
                    },
                },
                CssClassNameSegment::Local => buf.append(local),
                CssClassNameSegment::Hash => push_hex_byte(&mut buf, self.file_name_hash),
            }
            proof {
                let next = segs.subrange(0, i + 1);
                assert(next.drop_last() =~= segs.subrange(0, i as int));
                assert(next.last() == self.pattern@[i as int]@);
                assert(buf@ =~= before + segment_text(
                    self.pattern@[i as int]@,
                    stem,
                    self.file_name_hash,
                    local@,
                ));
            }
            i = i + 1;
        }
        proof {
            assert(segs.subrange(0, i as int) =~= segs);
        }
        buf
    }
}

} // verus!
