use vstd::prelude::*;

verus! {

/// A segment of path data in absolute coordinates of type `C`.
///
/// Quadratic curves are stored as cubic ones; elliptical arcs are kept as
/// arcs, in SVG's endpoint form.
#[derive(Clone, Copy, Debug)]
pub enum PathSegment<C> {
    MoveTo { x: C, y: C },
    LineTo { x: C, y: C },
    CurveTo { x1: C, y1: C, x2: C, y2: C, x: C, y: C },
    ArcTo { rx: C, ry: C, x_axis_rotation: C, large_arc: bool, sweep: bool, x: C, y: C },
    ClosePath,
}

/// Path data that breaks the rules on where segments may stand.
#[derive(Clone, Copy, Debug, PartialEq, Eq, Structural)]
pub enum GeometryError {
    /// The path has no segment, so it has no current point.
    EmptyPath,
    /// The last segment closes a subpath and has no end point of its own.
    NoCurrentPoint,
    /// The path does not start with a move.
    MissingMoveTo,
}

/// A sequence of path segments.
pub struct PathData<C>(pub Vec<PathSegment<C>>);

impl<C> View for PathData<C> {
    type V = Seq<PathSegment<C>>;

    open spec fn view(&self) -> Seq<PathSegment<C>> {
        self.0@
    }
}

/// Where the subpath that starts at `start` ends (exclusive), scanning from
/// `i`: before the next move, just after a close, or at the end.
pub open spec fn scan_end<C>(s: Seq<PathSegment<C>>, start: int, i: int) -> int
    decreases s.len() - i,
{
    if i < 0 || i >= s.len() {
        s.len() as int
    } else if s[i] is MoveTo && i != start {
        i
    } else if s[i] is ClosePath {
        i + 1
    } else {
        scan_end(s, start, i + 1)
    }
}

/// The end (exclusive) of the subpath that starts at `start`.
pub open spec fn subpath_end<C>(s: Seq<PathSegment<C>>, start: int) -> int {
    scan_end(s, start, start)
}

/// The subpaths of `s` from index `start` on, in order.
pub open spec fn subpaths_from<C>(s: Seq<PathSegment<C>>, start: int) -> Seq<Seq<PathSegment<C>>>
    decreases s.len() - start,
{
    if start < 0 || start >= s.len() {
        Seq::empty()
    } else {
        let e = subpath_end(s, start);
        if e <= start || e > s.len() {
            Seq::empty()
        } else {
            seq![s.subrange(start, e)] + subpaths_from(s, e)
        }
    }
}

/// The end point of a segment, if it has one.
pub open spec fn end_point<C>(seg: PathSegment<C>) -> Option<(C, C)> {
    match seg {
        PathSegment::MoveTo { x, y } => Some((x, y)),
        PathSegment::LineTo { x, y } => Some((x, y)),
        PathSegment::CurveTo { x, y, .. } => Some((x, y)),
        PathSegment::ArcTo { x, y, .. } => Some((x, y)),
        PathSegment::ClosePath => None,
    }
}

proof fn lemma_scan_end_bounds<C>(s: Seq<PathSegment<C>>, start: int, i: int)
    requires
        0 <= start <= i <= s.len(),
    ensures
        i <= scan_end(s, start, i) <= s.len(),
        i == start && i < s.len() ==> scan_end(s, start, i) > start,
    decreases s.len() - i,
{
    if i < s.len() {
        lemma_scan_end_bounds(s, start, i + 1);
    }
}

/// The subpaths of a path, laid end to end, give back the path.
pub proof fn lemma_subpaths_concat<C>(s: Seq<PathSegment<C>>)
    ensures
        subpaths_from(s, 0).flatten() == s,
{
    lemma_subpaths_from_concat(s, 0);
    assert(s.subrange(0, s.len() as int) =~= s);
}

proof fn lemma_subpaths_from_concat<C>(s: Seq<PathSegment<C>>, start: int)
    requires
        0 <= start <= s.len(),
    ensures
        subpaths_from(s, start).flatten() == s.subrange(start, s.len() as int),
    decreases s.len() - start,
{
    if start == s.len() {
        assert(s.subrange(start, s.len() as int) =~= Seq::<PathSegment<C>>::empty());
    } else {
        let e = subpath_end(s, start);
        lemma_scan_end_bounds(s, start, start);
        lemma_subpaths_from_concat(s, e);
        let parts = subpaths_from(s, start);
        assert(parts.drop_first() =~= subpaths_from(s, e));
        assert(s.subrange(start, e) + s.subrange(e, s.len() as int) =~= s.subrange(start, s.len() as int));
    }
}

impl<C: Copy> PathData<C> {
    /// An empty path.
    pub fn new() -> (r: PathData<C>)
        ensures
            r@ == Seq::<PathSegment<C>>::empty(),
    {
        PathData(Vec::new())
    }

    /// An empty path with room for `capacity` segments.
    pub fn with_capacity(capacity: usize) -> (r: PathData<C>)
        ensures
            r@ == Seq::<PathSegment<C>>::empty(),
    {
        PathData(Vec::with_capacity(capacity))
    }

    /// Appends a move to `(x, y)`.
    pub fn push_move_to(&mut self, x: C, y: C)
        ensures
            final(self)@ == old(self)@.push(PathSegment::MoveTo { x, y }),
    {
        self.0.push(PathSegment::MoveTo { x, y });
    }

    /// Appends a straight line to `(x, y)`.
    pub fn push_line_to(&mut self, x: C, y: C)
        ensures
            final(self)@ == old(self)@.push(PathSegment::LineTo { x, y }),
    {
        self.0.push(PathSegment::LineTo { x, y });
    }

    /// Appends a cubic curve with control points `(x1, y1)`, `(x2, y2)` that
    /// ends at `(x, y)`.
    pub fn push_curve_to(&mut self, x1: C, y1: C, x2: C, y2: C, x: C, y: C)
        ensures
            final(self)@ == old(self)@.push(PathSegment::CurveTo { x1, y1, x2, y2, x, y }),
    {
        self.0.push(PathSegment::CurveTo { x1, y1, x2, y2, x, y });
    }

    /// Appends an elliptical arc, in SVG's endpoint form, that ends at `(x, y)`.
    pub fn push_arc_to(&mut self, rx: C, ry: C, x_axis_rotation: C, large_arc: bool, sweep: bool, x: C, y: C)
        ensures
            final(self)@ == old(self)@.push(
                PathSegment::ArcTo { rx, ry, x_axis_rotation, large_arc, sweep, x, y },
            ),
    {
        self.0.push(PathSegment::ArcTo { rx, ry, x_axis_rotation, large_arc, sweep, x, y });
    }

    /// Appends a segment that closes the current subpath.
    pub fn push_close_path(&mut self)
        ensures
            final(self)@ == old(self)@.push(PathSegment::ClosePath),
    {
        self.0.push(PathSegment::ClosePath);
    }

    /// The current point: where the last segment ends.
    pub fn last_pos(&self) -> (r: Result<(C, C), GeometryError>)
        ensures
            self@.len() == 0 ==> r == Err::<(C, C), GeometryError>(GeometryError::EmptyPath),
            self@.len() > 0 ==> match end_point(self@.last()) {
                Some(p) => r == Ok::<(C, C), GeometryError>(p),
                None => r == Err::<(C, C), GeometryError>(GeometryError::NoCurrentPoint),
            },
    {
        let n = self.0.len();
        if n == 0 {
            return Err(GeometryError::EmptyPath);
        }
        match self.0[n - 1] {
            PathSegment::MoveTo { x, y } => Ok((x, y)),
            PathSegment::LineTo { x, y } => Ok((x, y)),
            PathSegment::CurveTo { x, y, .. } => Ok((x, y)),
            PathSegment::ArcTo { x, y, .. } => Ok((x, y)),
            PathSegment::ClosePath => Err(GeometryError::NoCurrentPoint),
        }
    }

    /// An iterator over the subpaths, from the first.
    pub fn subpaths(&self) -> (r: SubPathIter<'_, C>)
        ensures
            r.path@ == self@,
            r.index == 0,
    {
        SubPathIter { path: self.0.as_slice(), index: 0 }
    }

    /// The segments over which the path's length is measured: the first
    /// subpath. Fails when the path does not start with a move.
    pub fn length_segments(&self) -> (r: Result<SubPathData<'_, C>, GeometryError>)
        ensures
            match r {
                Ok(d) => self@.len() > 0 && self@[0] is MoveTo && d.0@ == self@.subrange(0, subpath_end(self@, 0)),
                Err(e) => e == GeometryError::MissingMoveTo && !(self@.len() > 0 && self@[0] is MoveTo),
            },
    {
        first_subpath(self.0.as_slice())
    }
}

/// The first subpath of `segments`, which must start with a move.
pub fn first_subpath<'a, C: Copy>(segments: &'a [PathSegment<C>]) -> (r: Result<SubPathData<'a, C>, GeometryError>)
    ensures
        match r {
            Ok(d) => segments@.len() > 0 && segments@[0] is MoveTo && d.0@ == segments@.subrange(0, subpath_end(segments@, 0)),
            Err(e) => e == GeometryError::MissingMoveTo && !(segments@.len() > 0 && segments@[0] is MoveTo),
        },
{
    if segments.len() == 0 {
        return Err(GeometryError::MissingMoveTo);
    }
    if let PathSegment::MoveTo { .. } = segments[0] {
        let end = subpath_end_of(segments, 0);
        Ok(SubPathData(vstd::slice::slice_subrange(segments, 0, end)))
    } else {
        Err(GeometryError::MissingMoveTo)
    }
}

/// Computes [`subpath_end`].
fn subpath_end_of<C: Copy>(segments: &[PathSegment<C>], start: usize) -> (r: usize)
    requires
        start < segments@.len(),
    ensures
        r == subpath_end(segments@, start as int),
        start < r <= segments@.len(),
{
    proof {
        lemma_scan_end_bounds(segments@, start as int, start as int);
    }
    let mut i: usize = start;
    while i < segments.len()
        invariant
            start <= i <= segments@.len(),
            scan_end(segments@, start as int, i as int) == subpath_end(segments@, start as int),
        decreases segments@.len() - i,
    {
        match segments[i] {
            PathSegment::MoveTo { .. } => {
                if i != start {
                    return i;
                }
            },
            PathSegment::ClosePath => {
                return i + 1;
            },
            _ => {},
        }
        i = i + 1;
    }
    i
}

/// An iterator over the subpaths of path data. A subpath starts at every
/// move but the first and ends just after a close, or before the next
/// move, or at the end of the data.
pub struct SubPathIter<'a, C> {
    pub path: &'a [PathSegment<C>],
    pub index: usize,
}

impl<'a, C: Copy> SubPathIter<'a, C> {
    pub open spec fn wf(&self) -> bool {
        self.index <= self.path@.len()
    }

    /// The subpaths not yet returned.
    pub open spec fn remaining(&self) -> Seq<Seq<PathSegment<C>>> {
        subpaths_from(self.path@, self.index as int)
    }

    /// The next subpath, or `None` when all have been returned.
    pub fn next(&mut self) -> (r: Option<SubPathData<'a, C>>)
        requires
            old(self).wf(),
        ensures
            final(self).wf(),
            final(self).path@ == old(self).path@,
            match r {
                None => old(self).remaining().len() == 0 && final(self).index == old(self).index,
                Some(d) => old(self).remaining().len() > 0
                    && d.0@ == old(self).remaining()[0]
                    && final(self).remaining() == old(self).remaining().drop_first(),
            },
    {
        if self.index == self.path.len() {
            return None;
        }
        let start = self.index;
        let end = subpath_end_of(self.path, start);
        self.index = end;
        proof {
            let parts = subpaths_from(self.path@, start as int);
            assert(parts.drop_first() =~= subpaths_from(self.path@, end as int));
        }
        Some(SubPathData(vstd::slice::slice_subrange(self.path, start, end)))
    }
}

/// One subpath, borrowed from its path data.
#[derive(Clone, Copy, Debug)]
pub struct SubPathData<'a, C>(pub &'a [PathSegment<C>]);

impl<'a, C: Copy> SubPathData<'a, C> {
    /// The segments over which the subpath's length is measured. Fails when
    /// it does not start with a move.
    pub fn length_segments(&self) -> (r: Result<SubPathData<'a, C>, GeometryError>)
        ensures
            match r {
                Ok(d) => self.0@.len() > 0 && self.0@[0] is MoveTo && d.0@ == self.0@.subrange(0, subpath_end(self.0@, 0)),
                Err(e) => e == GeometryError::MissingMoveTo && !(self.0@.len() > 0 && self.0@[0] is MoveTo),
            },
    {
        first_subpath(self.0)
    }
}

} // verus!
