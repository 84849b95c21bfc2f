use vstd::prelude::*;
use vstd::string::StringSliceAdditionalSpecFns;

verus! {

/// The byte that separates path components.
pub const SEPARATOR: u8 = 47;

/// The byte `.`.
pub const DOT: u8 = 46;

/// The raw components of `s` split at each separator, left to right: the
/// components already closed by a separator, and the one still open.
pub open spec fn split_state(s: Seq<u8>) -> (Seq<Seq<u8>>, Seq<u8>)
    decreases s.len(),
{
    if s.len() == 0 {
        (seq![], seq![])
    } else {
        let (closed, open) = split_state(s.drop_last());
        if s.last() == SEPARATOR {
            (closed.push(open), seq![])
        } else {
            (closed, open.push(s.last()))
        }
    }
}

/// The raw components of `s`: the pieces between separators, empty ones included.
pub open spec fn raw_components(s: Seq<u8>) -> Seq<Seq<u8>> {
    split_state(s).0.push(split_state(s).1)
}

pub open spec fn is_current_dir(c: Seq<u8>) -> bool {
    c == seq![DOT]
}

pub open spec fn is_parent_dir(c: Seq<u8>) -> bool {
    c == seq![DOT, DOT]
}

/// Resolves raw components into normal ones: empty components and `.` are
/// dropped, `..` removes the component before it, and a `..` with nothing
/// before it leaves the root (`None`).
pub open spec fn normalize(cs: Seq<Seq<u8>>) -> Option<Seq<Seq<u8>>>
    decreases cs.len(),
{
    if cs.len() == 0 {
        Some(seq![])
    } else {
        match normalize(cs.drop_last()) {
            None => None,
            Some(acc) => {
                let c = cs.last();
                if c.len() == 0 || is_current_dir(c) {
                    Some(acc)
                } else if is_parent_dir(c) {
                    if acc.len() == 0 {
                        None
                    } else {
                        Some(acc.drop_last())
                    }
                } else {
                    Some(acc.push(c))
                }
            },
        }
    }
}

/// A normal component: not empty, no separator, neither `.` nor `..`.
pub open spec fn normal_component(c: Seq<u8>) -> bool {
    &&& c.len() > 0
    &&& !is_current_dir(c)
    &&& !is_parent_dir(c)
    &&& no_separator(c)
}

/// No byte of `c` is a separator.
pub open spec fn no_separator(c: Seq<u8>) -> bool {
    forall|i: int| 0 <= i < c.len() ==> c[i] != SEPARATOR
}

/// Every component of the path is normal.
pub open spec fn normal_components(cs: Seq<Seq<u8>>) -> bool {
    forall|i: int| 0 <= i < cs.len() ==> normal_component(#[trigger] cs[i])
}

/// Why a path cannot be used as a path relative to the sandbox root.
#[derive(Clone, Copy, Debug, PartialEq, Eq, Structural)]
pub enum PathError {
    /// The path starts at the filesystem root.
    Absolute,
    /// A `..` climbs above the sandbox root.
    EscapesRoot,
}

/// What parsing the bytes `s` gives: its normal components, or why it is refused.
pub open spec fn parse_relative(s: Seq<u8>) -> Result<Seq<Seq<u8>>, PathError> {
    if s.len() > 0 && s[0] == SEPARATOR {
        Err(PathError::Absolute)
    } else {
        match normalize(raw_components(s)) {
            Some(cs) => Ok(cs),
            None => Err(PathError::EscapesRoot),
        }
    }
}

/// A path inside the sandbox, held as its normal components.
#[derive(Debug)]
pub struct RelativePath {
    pub components: Vec<Vec<u8>>,
}

impl View for RelativePath {
    type V = Seq<Seq<u8>>;

    open spec fn view(&self) -> Seq<Seq<u8>> {
        self.components@.map_values(|c: Vec<u8>| c@)
    }
}

impl RelativePath {
    /// The path's components are all normal.
    pub open spec fn wf(&self) -> bool {
        normal_components(self@)
    }

    /// Parses a path relative to the sandbox root, resolving `.` and `..`.
    pub fn new(path: &str) -> (r: Result<RelativePath, PathError>)
        ensures
            match r {
                Ok(p) => parse_relative(path.spec_bytes()) == Ok::<Seq<Seq<u8>>, PathError>(p@)
                    && p.wf(),
                Err(e) => parse_relative(path.spec_bytes()) == Err::<Seq<Seq<u8>>, PathError>(e),
            },
    {
        Self::from_bytes(path.as_bytes())
    }

    /// Parses the bytes of a path relative to the sandbox root.
    pub fn from_bytes(s: &[u8]) -> (r: Result<RelativePath, PathError>)
        ensures
            match r {
                Ok(p) => parse_relative(s@) == Ok::<Seq<Seq<u8>>, PathError>(p@) && p.wf(),
                Err(e) => parse_relative(s@) == Err::<Seq<Seq<u8>>, PathError>(e),
            },
    {
        if s.len() > 0 && s[0] == SEPARATOR {
            return Err(PathError::Absolute);
        }
        let raw = split_components(s);
        let mut acc: Vec<Vec<u8>> = Vec::new();
        let mut j: usize = 0;
        while j < raw.len()
            invariant
                j <= raw@.len(),
                !(s@.len() > 0 && s@[0] == SEPARATOR),
                raw@.map_values(|c: Vec<u8>| c@) == raw_components(s@),
                normalize(raw_components(s@).take(j as int)) == Some(
                    acc@.map_values(|c: Vec<u8>| c@),
                ),
                normal_components(acc@.map_values(|c: Vec<u8>| c@)),
                forall|k: int| 0 <= k < raw@.len() ==> no_separator(#[trigger] raw@[k]@),
            decreases raw.len() - j,
        {
            let ghost before = acc@.map_values(|c: Vec<u8>| c@);
            let c = &raw[j];
            assert(raw_components(s@).take(j + 1).drop_last() =~= raw_components(s@).take(
                j as int,
            ));
            assert(raw_components(s@).take(j + 1).last() == c@);
            if c.len() == 0 || (c.len() == 1 && c[0] == DOT) {
                proof {
                    if c@.len() == 1 {
                        assert(c@ =~= seq![DOT]);
                    }
                }
            } else if c.len() == 2 && c[0] == DOT && c[1] == DOT {
                assert(c@ =~= seq![DOT, DOT]);
                if acc.len() == 0 {
                    assert(normalize(raw_components(s@).take(j + 1)) is None);
                    proof {
                        lemma_normalize_none_stays(raw_components(s@), j as int + 1);
                    }
                    assert(!(s@.len() > 0 && s@[0] == SEPARATOR));
                    assert(normalize(raw_components(s@)) is None);
                    assert(parse_relative(s@) == Err::<Seq<Seq<u8>>, PathError>(
                        PathError::EscapesRoot,
                    ));
                    return Err(PathError::EscapesRoot);
                }
                acc.pop();
                assert(acc@.map_values(|c: Vec<u8>| c@) =~= before.drop_last());
            } else {
                proof {
                    if c@.len() == 1 {
                        assert(c@ != seq![DOT]) by {
                            if c@ == seq![DOT] {
                                assert(c@[0] == DOT);
                            }
                        }
                    }
                    if c@.len() == 2 {
                        assert(c@ != seq![DOT, DOT]) by {
                            if c@ == seq![DOT, DOT] {
                                assert(c@[0] == DOT && c@[1] == DOT);
                            }
                        }
                    }
                }
                acc.push(c.clone());
                assert(acc@.map_values(|c: Vec<u8>| c@) =~= before.push(c@));
            }
            j = j + 1;
        }
        assert(raw_components(s@).take(raw@.len() as int) =~= raw_components(s@));
        Ok(RelativePath { components: acc })
    }

    /// A copy of this path.
    pub fn duplicate(&self) -> (r: RelativePath)
        ensures
            r@ == self@,
    {
        let mut components: Vec<Vec<u8>> = Vec::new();
        let mut k: usize = 0;
        while k < self.components.len()
            invariant
                k <= self.components@.len(),
                components@.map_values(|c: Vec<u8>| c@) == self@.take(k as int),
            decreases self.components.len() - k,
        {
            let ghost before = components@.map_values(|c: Vec<u8>| c@);
            components.push(self.components[k].clone());
            assert(components@.map_values(|c: Vec<u8>| c@) =~= before.push(self@[k as int]));
            assert(self@.take(k + 1) =~= self@.take(k as int).push(self@[k as int]));
            k = k + 1;
        }
        assert(self@.take(self.components@.len() as int) =~= self@);
        RelativePath { components }
    }

    /// The directory that holds this path, unless that is the sandbox root.
    pub fn containing_dir(&self) -> (r: Option<RelativePath>)
        ensures
            match r {
                Some(d) => self@.len() > 1 && d@ == self@.drop_last(),
                None => self@.len() <= 1,
            },
    {
        if self.components.len() <= 1 {
            return None;
        }
        let mut d = self.duplicate();
        d.components.pop();
        assert(d@ =~= self@.drop_last());
        Some(d)
    }

    /// The path's components joined by separators.
    pub fn to_bytes(&self) -> (r: Vec<u8>)
        ensures
            r@ == join_components(self@),
    {
        let mut out: Vec<u8> = Vec::new();
        let mut k: usize = 0;
        while k < self.components.len()
            invariant
                k <= self.components@.len(),
                out@ == join_components(self@.take(k as int)),
            decreases self.components.len() - k,
        {
            assert(self@.take(k + 1).drop_last() =~= self@.take(k as int));
            if k > 0 {
                out.push(SEPARATOR);
            }
            let c = &self.components[k];
            let mut i: usize = 0;
            let ghost start = out@;
            while i < c.len()
                invariant
                    i <= c@.len(),
                    out@ == start + c@.take(i as int),
                decreases c.len() - i,
            {
                out.push(c[i]);
                assert(c@.take(i + 1) =~= c@.take(i as int).push(c@[i as int]));
                i = i + 1;
            }
            assert(c@.take(c@.len() as int) =~= c@);
            k = k + 1;
        }
        assert(self@.take(self.components@.len() as int) =~= self@);
        out
    }
}

/// Components joined by single separators.
pub open spec fn join_components(cs: Seq<Seq<u8>>) -> Seq<u8>
    decreases cs.len(),
{
    if cs.len() == 0 {
        seq![]
    } else if cs.len() == 1 {
        cs[0]
    } else {
        join_components(cs.drop_last()) + seq![SEPARATOR] + cs.last()
    }
}

proof fn lemma_normalize_none_stays(cs: Seq<Seq<u8>>, n: int)
    requires
        0 <= n <= cs.len(),
        normalize(cs.take(n)) is None,
    ensures
        normalize(cs) is None,
    decreases cs.len() - n,
{
    if n < cs.len() {
        assert(cs.take(n + 1).drop_last() =~= cs.take(n));
        lemma_normalize_none_stays(cs, n + 1);
    } else {
        assert(cs.take(n) =~= cs);
    }
}

/// Splits bytes at each separator, keeping empty pieces.
fn split_components(s: &[u8]) -> (r: Vec<Vec<u8>>)
    ensures
        r@.map_values(|c: Vec<u8>| c@) == raw_components(s@),
        forall|k: int| 0 <= k < r@.len() ==> no_separator(#[trigger] r@[k]@),
{
    let mut closed: Vec<Vec<u8>> = Vec::new();
    let mut open: Vec<u8> = Vec::new();
    let mut i: usize = 0;
    while i < s.len()
        invariant
            i <= s@.len(),
            split_state(s@.take(i as int)) == (closed@.map_values(|c: Vec<u8>| c@), open@),
            forall|k: int| 0 <= k < closed@.len() ==> no_separator(#[trigger] closed@[k]@),
            no_separator(open@),
        decreases s.len() - i,
    {
        assert(s@.take(i + 1).drop_last() =~= s@.take(i as int));
        let b = s[i];
        if b == SEPARATOR {
            let ghost before = closed@.map_values(|c: Vec<u8>| c@);
            closed.push(open);
            open = Vec::new();
            assert(closed@.map_values(|c: Vec<u8>| c@) =~= before.push(
                closed@[closed@.len() - 1]@,
            ));
            assert(open@ =~= seq![]);
        } else {
            open.push(b);
        }
        i = i + 1;
    }
    assert(s@.take(s@.len() as int) =~= s@);
    let ghost before = closed@.map_values(|c: Vec<u8>| c@);
    closed.push(open);
    assert(closed@.map_values(|c: Vec<u8>| c@) =~= before.push(closed@[closed@.len() - 1]@));
    closed
}

} // verus!
