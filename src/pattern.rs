use vstd::prelude::*;
use vstd::string::*;

verus! {

/// One piece of a compiled class-name pattern.
#[derive(Debug)]
pub enum CssClassNameSegment {
    /// A literal string segment.
    Literal(String),
    /// The base file name.
    Name,
    /// The original class name.
    Local,
    /// A hash of the file name.
    Hash,
}

/// What a segment stands for, over plain sequences.
pub ghost enum SegmentView {
    Literal(Seq<char>),
    Name,
    Local,
    Hash,
}

impl View for CssClassNameSegment {
    type V = SegmentView;

    open spec fn view(&self) -> SegmentView {
        match self {
            CssClassNameSegment::Literal(s) => SegmentView::Literal(s@),
            CssClassNameSegment::Name => SegmentView::Name,
            CssClassNameSegment::Local => SegmentView::Local,
            CssClassNameSegment::Hash => SegmentView::Hash,
        }
    }
}

/// Why a pattern could not be compiled. Offsets count UTF-8 bytes from the
/// start of the pattern.
#[derive(Debug)]
pub enum PatternError {
    /// A bracketed token that is not `[name]`, `[local]` or `[hash]`.
    UnknownPlaceholder { placeholder: String, offset: usize },
    /// A `[` with no `]` after it.
    UnclosedBracket { offset: usize },
}

pub ghost enum PatternErrorView {
    UnknownPlaceholder { placeholder: Seq<char>, offset: nat },
    UnclosedBracket { offset: nat },
}

impl View for PatternError {
    type V = PatternErrorView;

    open spec fn view(&self) -> PatternErrorView {
        match self {
            PatternError::UnknownPlaceholder { placeholder, offset } => {
                PatternErrorView::UnknownPlaceholder { placeholder: placeholder@, offset: *offset as nat }
            },
            PatternError::UnclosedBracket { offset } => PatternErrorView::UnclosedBracket {
                offset: *offset as nat,
            },
        }
    }
}

/// Configuration of the class-name rewriting: the naming pattern.
#[derive(Debug)]
pub struct CssModulesConfig {
    pub pattern: String,
}

/// Number of bytes that `c` takes in UTF-8.
pub open spec fn utf8_width(c: char) -> nat {
    if (c as u32) < 0x80 {
        1
    } else if (c as u32) < 0x800 {
        2
    } else if (c as u32) < 0x10000 {
        3
    } else {
        4
    }
}

/// Number of bytes that `s` takes in UTF-8.
pub open spec fn utf8_len(s: Seq<char>) -> nat
    decreases s.len(),
{
    if s.len() == 0 {
        0
    } else {
        utf8_len(s.drop_last()) + utf8_width(s.last())
    }
}

/// Index of the first `c` in `s`, if any.
pub open spec fn first_index(s: Seq<char>, c: char) -> Option<int>
    decreases s.len(),
{
    if s.len() == 0 {
        None
    } else if s[0] == c {
        Some(0)
    } else {
        match first_index(s.drop_first(), c) {
            Some(i) => Some(i + 1),
            None => None,
        }
    }
}

/// The segment that a complete bracketed token stands for, if it is one of
/// the three placeholders.
pub open spec fn placeholder(token: Seq<char>) -> Option<SegmentView> {
    if token == seq!['[', 'n', 'a', 'm', 'e', ']'] {
        Some(SegmentView::Name)
    } else if token == seq!['[', 'l', 'o', 'c', 'a', 'l', ']'] {
        Some(SegmentView::Local)
    } else if token == seq!['[', 'h', 'a', 's', 'h', ']'] {
        Some(SegmentView::Hash)
    } else {
        None
    }
}

/// Prepends `seg` to a compiled rest, or passes the rest's error on.
pub open spec fn prepend(
    seg: SegmentView,
    rest: Result<Seq<SegmentView>, PatternErrorView>,
) -> Result<Seq<SegmentView>, PatternErrorView> {
    match rest {
        Ok(segs) => Ok(seq![seg] + segs),
        Err(e) => Err(e),
    }
}

/// Compiles `s`, the part of a pattern that starts `offset` bytes in.
/// A token that starts with `[` runs to the first `]`; any other run of
/// characters up to the next `[` is one literal.
pub open spec fn compile_from(s: Seq<char>, offset: nat) -> Result<
    Seq<SegmentView>,
    PatternErrorView,
>
    decreases s.len(),
    via compile_from_decreases
{
    if s.len() == 0 {
        Ok(Seq::empty())
    } else if s[0] == '[' {
        match first_index(s, ']') {
            None => Err(PatternErrorView::UnclosedBracket { offset }),
            Some(e) => {
                let token = s.subrange(0, e + 1);
                match placeholder(token) {
                    None => Err(PatternErrorView::UnknownPlaceholder { placeholder: token, offset }),
                    Some(seg) => prepend(
                        seg,
                        compile_from(s.subrange(e + 1, s.len() as int), offset + utf8_len(token)),
                    ),
                }
            },
        }
    } else {
        let end = match first_index(s, '[') {
            Some(i) => i,
            None => s.len() as int,
        };
        let lit = s.subrange(0, end);
        prepend(
            SegmentView::Literal(lit),
            compile_from(s.subrange(end, s.len() as int), offset + utf8_len(lit)),
        )
    }
}

/// The compiled form of a whole pattern.
pub open spec fn compile_pattern(s: Seq<char>) -> Result<Seq<SegmentView>, PatternErrorView> {
    compile_from(s, 0)
}

pub open spec fn segments_view(v: Seq<CssClassNameSegment>) -> Seq<SegmentView> {
    v.map_values(|g: CssClassNameSegment| g@)
}

proof fn lemma_first_index_found(s: Seq<char>, c: char)
    ensures
        match first_index(s, c) {
            Some(i) => 0 <= i < s.len() && s[i] == c,
            None => forall|k: int| 0 <= k < s.len() ==> s[k] != c,
        },
    decreases s.len(),
{
    if s.len() > 0 {
        lemma_first_index_found(s.drop_first(), c);
        if s[0] != c && first_index(s.drop_first(), c) is None {
            assert forall|k: int| 0 <= k < s.len() implies s[k] != c by {
                if k > 0 {
                    assert(s[k] == s.drop_first()[k - 1]);
                }
            }
        }
    }
}

#[via_fn]
proof fn compile_from_decreases(s: Seq<char>, offset: nat) {
    lemma_first_index_found(s, ']');
    lemma_first_index_found(s, '[');
}

proof fn lemma_first_index(s: Seq<char>, c: char, j: int)
    requires
        0 <= j <= s.len(),
        forall|k: int| 0 <= k < j ==> s[k] != c,
        j < s.len() ==> s[j] == c,
    ensures
        first_index(s, c) == (if j < s.len() {
            Some(j)
        } else {
            None::<int>
        }),
    decreases j,
{
    if j > 0 {
        lemma_first_index(s.drop_first(), c, j - 1);
    }
}

proof fn lemma_utf8_len_push(s: Seq<char>, c: char)
    ensures
        utf8_len(s.push(c)) == utf8_len(s) + utf8_width(c),
{
    assert(s.push(c).drop_last() =~= s);
}

fn width_of(c: char) -> (r: usize)
    ensures
        r as nat == utf8_width(c),
{
    let u = c as u32;
    if u < 0x80 {
        1
    } else if u < 0x800 {
        2
    } else if u < 0x10000 {
        3
    } else {
        4
    }
}

/// Position of the first `c` in `s` at or after `from`, or the length of `s`.
fn scan_for(s: &str, n: usize, from: usize, c: char) -> (r: usize)
    requires
        n == s@.len(),
        from <= n,
    ensures
        from <= r <= n,
        forall|k: int| from <= k < r ==> s@[k] != c,
        r < n ==> s@[r as int] == c,
{
    let mut j = from;
    while j < n
        invariant
            n == s@.len(),
            from <= j <= n,
            forall|k: int| from <= k < j ==> s@[k] != c,
        decreases n - j,
    {
        if s.get_char(j) == c {
            return j;
        }
        j = j + 1;
    }
    j
}

/// Byte length of `s@[from..to]`, together with the proof that it is at
/// most four bytes a character.
fn bytes_between(s: &str, from: usize, to: usize) -> (r: usize)
    requires
        from <= to <= s@.len(),
        s@.len() <= usize::MAX / 4,
    ensures
        r as nat == utf8_len(s@.subrange(from as int, to as int)),
        r <= 4 * (to - from),
{
    let mut k = from;
    let mut total: usize = 0;
    while k < to
        invariant
            from <= k <= to <= s@.len(),
            s@.len() <= usize::MAX / 4,
            total as nat == utf8_len(s@.subrange(from as int, k as int)),
            total <= 4 * (k - from),
        decreases to - k,
    {
        let c = s.get_char(k);
        proof {
            lemma_utf8_len_push(s@.subrange(from as int, k as int), c);
            assert(s@.subrange(from as int, k as int).push(c) =~= s@.subrange(
                from as int,
                k + 1,
            ));
        }
        total = total + width_of(c);
        k = k + 1;
    }
    total
}

fn placeholder_of(token: &str) -> (r: Option<CssClassNameSegment>)
    ensures
        match r {
            Some(g) => placeholder(token@) == Some(g@),
            None => placeholder(token@) is None,
        },
{
    let t = String::from_str(token);
    let name = String::from_str("[name]");
    let local = String::from_str("[local]");
    let hash = String::from_str("[hash]");
    proof {
        reveal_strlit("[name]");
        reveal_strlit("[local]");
        reveal_strlit("[hash]");
        assert("[name]"@ =~= seq!['[', 'n', 'a', 'm', 'e', ']']);
        assert("[local]"@ =~= seq!['[', 'l', 'o', 'c', 'a', 'l', ']']);
        assert("[hash]"@ =~= seq!['[', 'h', 'a', 's', 'h', ']']);
    }
    if t == name {
        Some(CssClassNameSegment::Name)
    } else if t == local {
        Some(CssClassNameSegment::Local)
    } else if t == hash {
        Some(CssClassNameSegment::Hash)
    } else {
        None
    }
}

pub open spec fn result_view(r: Result<Vec<CssClassNameSegment>, PatternError>) -> Result<
    Seq<SegmentView>,
    PatternErrorView,
> {
    match r {
        Ok(v) => Ok(segments_view(v@)),
        Err(e) => Err(e@),
    }
}

impl CssModulesConfig {
    /// Compiles the naming pattern into its segments, in order.
    pub fn parse_pattern(&self) -> (r: Result<Vec<CssClassNameSegment>, PatternError>)
        requires
            self.pattern@.len() <= usize::MAX / 4,
        ensures
            result_view(r) == compile_pattern(self.pattern@),
    {
        let p = self.pattern.as_str();
        let n = p.unicode_len();
        let ghost whole = p@;
        let mut res: Vec<CssClassNameSegment> = Vec::new();
        let mut pos: usize = 0;
        let mut offset: usize = 0;
        proof {
            assert(whole.subrange(0, n as int) =~= whole);
            if let Ok(segs) = compile_from(whole, 0) {
                assert(Seq::<SegmentView>::empty() + segs =~= segs);
            }
        }
        while pos < n
            invariant
                n == whole.len(),
                whole == p@,
                whole == self.pattern@,
                n <= usize::MAX / 4,
                pos <= n,
                offset <= 4 * pos,
                compile_pattern(whole) == prepend_all(
                    segments_view(res@),
                    compile_from(whole.subrange(pos as int, n as int), offset as nat),
                ),
            decreases n - pos,
        {
            let ghost rest = whole.subrange(pos as int, n as int);
            if p.get_char(pos) == '[' {
                let end = scan_for(p, n, pos, ']');
                proof {
                    lemma_first_index(rest, ']', end - pos);
                }
                if end == n {
                    proof {
                        assert(compile_from(rest, offset as nat) == Err::<Seq<SegmentView>, _>(
                            PatternErrorView::UnclosedBracket { offset: offset as nat },
                        ));
                    }
                    return Err(PatternError::UnclosedBracket { offset });
                }
                let token = p.substring_char(pos, end + 1);
                proof {
                    assert(token@ =~= rest.subrange(0, end - pos + 1));
                }
                match placeholder_of(token) {
                    None => {
                        return Err(
                            PatternError::UnknownPlaceholder {
                                placeholder: String::from_str(token),
                                offset,
                            },
                        );
                    },
                    Some(seg) => {
                        let w = bytes_between(p, pos, end + 1);
                        proof {
                            assert(rest.subrange(end - pos + 1, rest.len() as int) =~= whole.subrange(
                                end + 1,
                                n as int,
                            ));
                            lemma_prepend_all_push(
                                segments_view(res@),
                                seg@,
                                compile_from(
                                    whole.subrange(end + 1, n as int),
                                    (offset + w) as nat,
                                ),
                            );
                        }
                        let ghost before = res@;
                        let ghost sv = seg@;
                        res.push(seg);
                        proof {
                            assert(segments_view(res@) =~= segments_view(before).push(sv));
                        }
                        offset = offset + w;
                        pos = end + 1;
                    },
                }
            } else {
                let end = scan_for(p, n, pos, '[');
                proof {
                    lemma_first_index(rest, '[', end - pos);
                }
                let lit = p.substring_char(pos, end);
                let w = bytes_between(p, pos, end);
                proof {
                    assert(lit@ =~= rest.subrange(0, end - pos));
                    assert(rest.subrange(end - pos, rest.len() as int) =~= whole.subrange(
                        end as int,
                        n as int,
                    ));
                    lemma_prepend_all_push(
                        segments_view(res@),
                        SegmentView::Literal(lit@),
                        compile_from(whole.subrange(end as int, n as int), (offset + w) as nat),
                    );
                }
                let ghost before = res@;
                res.push(CssClassNameSegment::Literal(String::from_str(lit)));
                proof {
                    assert(segments_view(res@) =~= segments_view(before).push(
                        SegmentView::Literal(lit@),
                    ));
                }
                offset = offset + w;
                pos = end;
            }
        }
        proof {
            assert(whole.subrange(pos as int, n as int) =~= Seq::<char>::empty());
            assert(segments_view(res@) + Seq::<SegmentView>::empty() =~= segments_view(res@));
        }
        Ok(res)
    }
}

/// The result of compiling a rest, once `done` has been compiled before it.
pub open spec fn prepend_all(
    done: Seq<SegmentView>,
    rest: Result<Seq<SegmentView>, PatternErrorView>,
) -> Result<Seq<SegmentView>, PatternErrorView> {
    match rest {
        Ok(segs) => Ok(done + segs),
        Err(e) => Err(e),
    }
}

proof fn lemma_prepend_all_push(
    done: Seq<SegmentView>,
    seg: SegmentView,
    rest: Result<Seq<SegmentView>, PatternErrorView>,
)
    ensures
        prepend_all(done, prepend(seg, rest)) == prepend_all(done.push(seg), rest),
{
    if let Ok(segs) = rest {
        assert(done + (seq![seg] + segs) =~= done.push(seg) + segs);
    }
}

} // verus!
