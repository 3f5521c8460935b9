use vstd::prelude::*;
use vstd::string::*;

verus! {

/// Splits on `/` the way `str::split('/')` does: `n` separators give
/// `n + 1` segments, empty ones included.
pub open spec fn split_segments(s: Seq<char>) -> Seq<Seq<char>>
    decreases s.len(),
{
    if s.len() == 0 {
        seq![Seq::empty()]
    } else {
        let prev = split_segments(s.drop_last());
        if s.last() == '/' {
            prev.push(Seq::empty())
        } else {
            prev.update(prev.len() - 1, prev.last().push(s.last()))
        }
    }
}

/// Unicode general category Cc: U+0000..=U+001F and U+007F..=U+009F.
pub open spec fn is_control_char(c: char) -> bool {
    (c as u32) <= 0x1f || (0x7f <= (c as u32) && (c as u32) <= 0x9f)
}

/// Characters that no portable file name may hold.
pub open spec fn is_forbidden_char(c: char) -> bool {
    is_control_char(c) || c == '<' || c == '>' || c == ':' || c == '"' || c == '|' || c == '?'
        || c == '*'
}

/// A path segment: non-empty, not `.` or `..`, no forbidden character.
pub open spec fn is_valid_segment(seg: Seq<char>) -> bool {
    &&& seg.len() != 0
    &&& seg != seq!['.']
    &&& seg != seq!['.', '.']
    &&& forall|i: int| 0 <= i < seg.len() ==> !is_forbidden_char(#[trigger] seg[i])
}

/// A portable project-relative path: `/`-separated valid segments, no `\\`.
/// An empty text, a leading `/`, `//`, `.` and `..` all make an invalid segment.
pub open spec fn is_project_relative_path(s: Seq<char>) -> bool {
    &&& forall|i: int| 0 <= i < s.len() ==> #[trigger] s[i] != '\\'
    &&& forall|k: int| 0 <= k < split_segments(s).len() ==> is_valid_segment(
        #[trigger] split_segments(s)[k],
    )
}

/// Why a text is not a project-relative path.
#[derive(Debug, Clone, Copy, PartialEq, Eq, Structural)]
pub enum ProjectPathError {
    Invalid,
    NonUtf8,
}

/// A validated, traversal-free path inside a project, `/`-separated.
#[derive(Debug, PartialEq, Eq, PartialOrd, Ord, Hash)]
pub struct ProjectRelativePath(String);

impl View for ProjectRelativePath {
    type V = Seq<char>;

    closed spec fn view(&self) -> Seq<char> {
        self.0@
    }
}

impl Clone for ProjectRelativePath {
    fn clone(&self) -> (r: Self)
        ensures
            r == *self,
    {
        proof {
            use_type_invariant(self);
        }
        ProjectRelativePath(self.0.clone())
    }
}

fn is_forbidden(c: char) -> (r: bool)
    ensures
        r == is_forbidden_char(c),
{
    let code = c as u32;
    code <= 0x1f || (0x7f <= code && code <= 0x9f) || c == '<' || c == '>' || c == ':' || c == '"'
        || c == '|' || c == '?' || c == '*'
}

proof fn lemma_split_nonempty(s: Seq<char>)
    ensures
        split_segments(s).len() >= 1,
    decreases s.len(),
{
    if s.len() > 0 {
        lemma_split_nonempty(s.drop_last());
    }
}

impl ProjectRelativePath {
    #[verifier::type_invariant]
    spec fn valid(self) -> bool {
        is_project_relative_path(self.0@)
    }

    /// Validates a portable relative path; every refusal is `Invalid`.
    pub fn new(text: &str) -> (r: Result<ProjectRelativePath, ProjectPathError>)
        ensures
            r is Ok <==> is_project_relative_path(text@),
            r matches Ok(p) ==> p@ == text@,
            r matches Err(e) ==> e == ProjectPathError::Invalid,
    {
        let n = text.unicode_len();
        let mut i: usize = 0;
        let mut seg_start: usize = 0;
        let ghost s = text@;
        proof {
            lemma_split_nonempty(s.take(0));
            assert(s.take(0) =~= Seq::<char>::empty());
            assert(split_segments(s.take(0)) =~= seq![Seq::<char>::empty()]);
        }
        while i < n
            invariant
                n == s.len(),
                s == text@,
                0 <= seg_start <= i <= n,
                split_segments(s.take(i as int)).len() >= 1,
                split_segments(s.take(i as int)).last() == s.subrange(seg_start as int, i as int),
                forall|k: int|
                    0 <= k < split_segments(s.take(i as int)).len() - 1 ==> is_valid_segment(
                        #[trigger] split_segments(s.take(i as int))[k],
                    ),
                forall|j: int| seg_start <= j < i ==> !is_forbidden_char(#[trigger] s[j]),
                forall|j: int| 0 <= j < i ==> #[trigger] s[j] != '\\',
            decreases n - i,
        {
            let c = text.get_char(i);
            let ghost prefix = s.take(i as int);
            let ghost next = s.take(i + 1);
            proof {
                assert(next.drop_last() =~= prefix);
                assert(next.last() == c);
            }
            if c == '\\' {
                proof {
                    assert(s[i as int] == '\\');
                }
                return Err(ProjectPathError::Invalid);
            }
            if c == '/' {
                let len = i - seg_start;
                let ghost seg = s.subrange(seg_start as int, i as int);
                if len == 0 {
                    proof {
                        lemma_split_is_prefix_stable(s, i + 1);
                        assert(split_segments(next) == split_segments(prefix).push(Seq::<char>::empty()));
                        assert(split_segments(s)[split_segments(prefix).len() - 1] == seg);
                        assert(!is_valid_segment(seg));
                    }
                    return Err(ProjectPathError::Invalid);
                }
                if len == 1 && text.get_char(seg_start) == '.' {
                    proof {
                        assert(seg =~= seq!['.']);
                        lemma_split_is_prefix_stable(s, i + 1);
                        assert(split_segments(next) == split_segments(prefix).push(Seq::<char>::empty()));
                        assert(split_segments(s)[split_segments(prefix).len() - 1] == seg);
                    }
                    return Err(ProjectPathError::Invalid);
                }
                if len == 2 && text.get_char(seg_start) == '.' && text.get_char(seg_start + 1) == '.' {
                    proof {
                        assert(seg =~= seq!['.', '.']);
                        lemma_split_is_prefix_stable(s, i + 1);
                        assert(split_segments(next) == split_segments(prefix).push(Seq::<char>::empty()));
                        assert(split_segments(s)[split_segments(prefix).len() - 1] == seg);
                    }
                    return Err(ProjectPathError::Invalid);
                }
                proof {
                    assert forall|j: int| 0 <= j < seg.len() implies !is_forbidden_char(#[trigger] seg[j]) by {
                        assert(seg[j] == s[seg_start + j]);
                    }
                    if len == 1 {
                        assert(seg[0] != '.');
                    }
                    if len == 2 {
                        assert(seg[0] != '.' || seg[1] != '.');
                    }
                    assert(is_valid_segment(seg));
                    let segs = split_segments(prefix);
                    let nsegs = split_segments(next);
                    assert(nsegs == segs.push(Seq::<char>::empty()));
                    assert forall|k: int| 0 <= k < nsegs.len() - 1 implies is_valid_segment(
                        #[trigger] nsegs[k],
                    ) by {
                        if k < segs.len() - 1 {
                            assert(nsegs[k] == segs[k]);
                        } else {
                            assert(nsegs[k] == segs.last());
                        }
                    }
                    assert(nsegs.last() =~= s.subrange(i + 1, i + 1));
                }
                seg_start = i + 1;
            } else {
                if is_forbidden(c) {
                    proof {
                        lemma_split_is_prefix_stable(s, i + 1);
                        let segs = split_segments(prefix);
                        let nsegs = split_segments(next);
                        let k = segs.len() - 1;
                        assert(nsegs == segs.update(k, segs.last().push(c)));
                        let full = split_segments(s)[k];
                        assert(full.subrange(0, nsegs[k].len() as int) == nsegs[k]);
                        assert(nsegs[k][nsegs[k].len() - 1] == c);
                        assert(full[nsegs[k].len() - 1] == c);
                        assert(!is_valid_segment(full));
                    }
                    return Err(ProjectPathError::Invalid);
                }
                proof {
                    let segs = split_segments(prefix);
                    let nsegs = split_segments(next);
                    assert(nsegs == segs.update(segs.len() - 1, segs.last().push(c)));
                    assert(nsegs.last() =~= s.subrange(seg_start as int, i + 1));
                    assert forall|k: int| 0 <= k < nsegs.len() - 1 implies is_valid_segment(
                        #[trigger] nsegs[k],
                    ) by {
                        assert(nsegs[k] == segs[k]);
                    }
                }
            }
            i = i + 1;
        }
        assert(s.take(n as int) =~= s);
        let len = n - seg_start;
        let ghost seg = s.subrange(seg_start as int, n as int);
        if len == 0 || (len == 1 && text.get_char(seg_start) == '.') || (len == 2 && text.get_char(
            seg_start,
        ) == '.' && text.get_char(seg_start + 1) == '.') {
            proof {
                if len == 1 {
                    assert(seg =~= seq!['.']);
                }
                if len == 2 {
                    assert(seg =~= seq!['.', '.']);
                }
                assert(!is_valid_segment(split_segments(s).last()));
            }
            return Err(ProjectPathError::Invalid);
        }
        proof {
            assert forall|j: int| 0 <= j < seg.len() implies !is_forbidden_char(#[trigger] seg[j]) by {
                assert(seg[j] == s[seg_start + j]);
            }
            if len == 1 {
                assert(seg[0] != '.');
            }
            if len == 2 {
                assert(seg[0] != '.' || seg[1] != '.');
            }
            assert(is_valid_segment(seg));
            assert forall|k: int| 0 <= k < split_segments(s).len() implies is_valid_segment(
                #[trigger] split_segments(s)[k],
            ) by {
                if k == split_segments(s).len() - 1 {
                    assert(split_segments(s)[k] == seg);
                }
            }
        }
        Ok(ProjectRelativePath(text.to_owned()))
    }

    pub fn as_str(&self) -> (s: &str)
        ensures
            s@ == self@,
    {
        self.0.as_str()
    }
}

/// A segment that is complete in a prefix stays a segment of every longer
/// text, and the segment under construction is a prefix of the text's
/// segment at the same position.
proof fn lemma_split_is_prefix_stable(s: Seq<char>, i: int)
    requires
        0 <= i <= s.len(),
    ensures
        split_segments(s.take(i)).len() <= split_segments(s).len(),
        forall|k: int|
            0 <= k < split_segments(s.take(i)).len() - 1 ==> #[trigger] split_segments(s)[k]
                == split_segments(s.take(i))[k],
        split_segments(s.take(i)).len() >= 1,
        ({
            let k = split_segments(s.take(i)).len() - 1;
            split_segments(s)[k].len() >= split_segments(s.take(i))[k].len()
                && split_segments(s)[k].subrange(0, split_segments(s.take(i))[k].len() as int)
                == split_segments(s.take(i))[k]
        }),
    decreases s.len() - i,
{
    lemma_split_nonempty(s.take(i));
    if i == s.len() {
        assert(s.take(i) =~= s);
        let k = split_segments(s).len() - 1;
        assert(split_segments(s)[k].subrange(0, split_segments(s)[k].len() as int) =~= split_segments(s)[k]);
    } else {
        lemma_split_is_prefix_stable(s, i + 1);
        let a = s.take(i);
        let b = s.take(i + 1);
        assert(b.drop_last() =~= a);
        lemma_split_nonempty(a);
        let sa = split_segments(a);
        let sb = split_segments(b);
        let k = sa.len() - 1;
        if b.last() == '/' {
            assert(sb == sa.push(Seq::<char>::empty()));
            assert(sb[k] == sa[k]);
            assert(split_segments(s)[k] == sb[k]);
            assert(split_segments(s)[k].subrange(0, sa[k].len() as int) =~= sa[k]);
        } else {
            assert(sb == sa.update(k, sa.last().push(b.last())));
            let full = split_segments(s)[k];
            assert(full.subrange(0, sb[k].len() as int) == sb[k]);
            assert(full.subrange(0, sa[k].len() as int) =~= sb[k].subrange(0, sa[k].len() as int));
            assert(sb[k].subrange(0, sa[k].len() as int) =~= sa[k]);
        }
    }
}

/// A path is valid exactly when each of its segments is, apart from `\\`.
pub proof fn lemma_traversal_free(s: Seq<char>)
    requires
        is_project_relative_path(s),
    ensures
        s.len() != 0,
        s[0] != '/',
        forall|k: int|
            0 <= k < split_segments(s).len() ==> #[trigger] split_segments(s)[k] != seq!['.', '.'],
{
    lemma_split_nonempty(s);
    if s.len() == 0 {
        assert(split_segments(s)[0].len() == 0);
    } else if s[0] == '/' {
        lemma_split_is_prefix_stable(s, 1);
        assert(s.take(1).drop_last() =~= Seq::<char>::empty());
        assert(split_segments(Seq::<char>::empty()) == seq![Seq::<char>::empty()]);
        assert(s.take(1).last() == '/');
        assert(split_segments(s.take(1)) == split_segments(Seq::<char>::empty()).push(Seq::<char>::empty()));
        assert(split_segments(s.take(1))[0] =~= Seq::<char>::empty());
        assert(split_segments(s)[0] == split_segments(s.take(1))[0]);
    }
}

} // verus!
