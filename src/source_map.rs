use vstd::prelude::*;
use vstd::string::{StrSliceExecFns, StringExecFns};
use crate::span::{LineColumn, Span};
use crate::text::{digits_of, push_digits};

verus! {

/// Offsets at which the lines of `s` start: 0, and one past each line feed.
pub open spec fn line_starts(s: Seq<char>) -> Seq<int>
    decreases s.len(),
{
    if s.len() == 0 {
        seq![0int]
    } else {
        let prefix = line_starts(s.drop_last());
        if s.last() == '\n' {
            prefix.push(s.len() as int)
        } else {
            prefix
        }
    }
}

pub open spec fn as_ints(v: Seq<usize>) -> Seq<int> {
    v.map_values(|x: usize| x as int)
}

/// What a registered file is, as plain values.
pub ghost struct FileRecord {
    pub name: Seq<char>,
    pub span: Span,
    pub lines: Seq<int>,
}

/// A line table is sorted, starts at 0 and stays inside a file of `len` chars.
pub open spec fn lines_wf(lines: Seq<int>, len: int) -> bool {
    &&& lines.len() >= 1
    &&& lines[0] == 0
    &&& forall|i: int, j: int| 0 <= i < j < lines.len() ==> lines[i] < lines[j]
    &&& forall|i: int| 0 <= i < lines.len() ==> lines[i] <= len
}

pub open spec fn record_wf(r: FileRecord) -> bool {
    r.span.wf() && lines_wf(r.lines, r.span.hi - r.span.lo)
}

/// The line and column of the file-relative offset `off` in a line table:
/// the line is the number of line starts at or before `off`.
pub open spec fn line_column_in(lines: Seq<int>, off: int, lc: LineColumn) -> bool {
    &&& 1 <= lc.line <= lines.len()
    &&& lines[lc.line - 1] <= off
    &&& (lc.line == lines.len() || off < lines[lc.line as int])
    &&& lc.column == off - lines[lc.line - 1]
}

/// The record of one registered virtual file.
pub struct FileInfo {
    name: String,
    span: Span,
    lines: Vec<usize>,
}

impl FileInfo {
    pub closed spec fn view(&self) -> FileRecord {
        FileRecord { name: self.name@, span: self.span, lines: as_ints(self.lines@) }
    }

    /// Resolves an absolute offset inside this file to its line and column.
    fn offset_line_column(&self, offset: usize) -> (r: LineColumn)
        requires
            record_wf(self@),
            self.span.lo <= offset <= self.span.hi,
        ensures
            line_column_in(self@.lines, offset - self.span.lo, r),
    {
        let off = offset - self.span.lo as usize;
        let ghost lines = self@.lines;
        assert(lines[0] == 0);
        let mut lo: usize = 0;
        let mut hi: usize = self.lines.len();
        while hi - lo > 1
            invariant
                lines == as_ints(self.lines@),
                lines_wf(lines, self.span.hi - self.span.lo),
                0 <= lo < hi <= lines.len(),
                lines[lo as int] <= off,
                hi == lines.len() || off < lines[hi as int],
            decreases hi - lo,
        {
            let mid = lo + (hi - lo) / 2;
            if self.lines[mid] <= off {
                lo = mid;
            } else {
                hi = mid;
            }
        }
        LineColumn { line: lo + 1, column: off - self.lines[lo] }
    }
}

/// Counts the characters of `s` and records where each of its lines starts.
fn lines_offsets(s: &str) -> (r: (usize, Vec<usize>))
    ensures
        r.0 == s@.len(),
        as_ints(r.1@) == line_starts(s@),
{
    let n = s.unicode_len();
    let mut lines: Vec<usize> = Vec::new();
    lines.push(0);
    let mut total: usize = 0;
    for ch in it: s.chars()
        invariant
            n == s@.len(),
            it.seq() == s@,
            total == it.index(),
            as_ints(lines@) == line_starts(s@.take(total as int)),
    {
        assert(s@.take(total + 1).drop_last() == s@.take(total as int));
        total += 1;
        if ch == '\n' {
            lines.push(total);
        }
        assert(as_ints(lines@) == line_starts(s@.take(total as int)));
    }
    assert(s@.take(total as int) == s@);
    (total, lines)
}

/// The zero-length file at offset 0 that call-site spans resolve to.
pub open spec fn placeholder() -> FileRecord {
    FileRecord { name: "<unspecified>"@, span: Span { lo: 0, hi: 0 }, lines: seq![0int] }
}

/// The name given to the text registered as the `n`-th file.
pub open spec fn parsed_name(n: nat) -> Seq<char> {
    "<parsed string "@ + digits_of(n) + ">"@
}

/// The registry of virtual source files. Each file owns a disjoint range of
/// the shared coordinate space; records are only ever appended.
pub struct SourceMap {
    files: Vec<FileInfo>,
}

/// The virtual file that a span belongs to.
#[derive(Clone, Debug, PartialEq, Eq)]
pub struct SourceFile {
    path: String,
}

impl SourceFile {
    pub closed spec fn spec_path(&self) -> Seq<char> {
        self.path@
    }

    /// The name under which the file was registered.
    pub fn path(&self) -> (r: String)
        ensures
            r@ == self.spec_path(),
    {
        self.path.clone()
    }

    /// Virtual files never stand for a file on disk.
    pub fn is_real(&self) -> (r: bool)
        ensures
            !r,
    {
        false
    }
}

impl SourceMap {
    pub closed spec fn view(&self) -> Seq<FileRecord> {
        self.files@.map_values(|f: FileInfo| f@)
    }

    /// The registry's invariant: a zero-length placeholder file at 0, every
    /// record well formed, and the ranges in increasing order with a gap of
    /// at least one between neighbours.
    pub open spec fn wf(&self) -> bool {
        let fs = self@;
        &&& fs.len() >= 1
        &&& fs[0].span == Span { lo: 0, hi: 0 }
        &&& forall|i: int| 0 <= i < fs.len() ==> record_wf(#[trigger] fs[i])
        &&& forall|i: int, j: int| 0 <= i < j < fs.len() ==> fs[i].span.hi < fs[j].span.lo
    }

    /// `i` is the first file whose range holds `span`.
    pub open spec fn owner(&self, span: Span, i: int) -> bool {
        &&& 0 <= i < self@.len()
        &&& self@[i].span.contains(span)
        &&& forall|j: int| 0 <= j < i ==> !self@[j].span.contains(span)
    }

    /// Some registered file holds `span`.
    pub open spec fn resolvable(&self, span: Span) -> bool {
        exists|i: int| 0 <= i < self@.len() && self@[i].span.contains(span)
    }

    /// The first file whose range holds `span`, where there is one.
    pub open spec fn file_index(&self, span: Span) -> int {
        choose|i: int| self.owner(span, i)
    }

    /// What joining `a` with `b` gives: the enclosing span where `b` lies in
    /// the file of `a`, and nothing otherwise.
    pub open spec fn joined(&self, a: Span, b: Span) -> Option<Span> {
        if self@[self.file_index(a)].span.contains(b) {
            Some(Span {
                lo: if a.lo <= b.lo { a.lo } else { b.lo },
                hi: if a.hi >= b.hi { a.hi } else { b.hi },
            })
        } else {
            None
        }
    }

    /// Where the next registered file starts.
    pub open spec fn next_lo(&self) -> int {
        self@.last().span.hi + 1
    }

    /// A registry that holds only the placeholder file.
    pub fn new() -> (r: SourceMap)
        ensures
            r.wf(),
            r@ == seq![placeholder()],
    {
        let mut lines: Vec<usize> = Vec::new();
        lines.push(0);
        let mut files: Vec<FileInfo> = Vec::new();
        let name = String::from_str("<unspecified>");
        files.push(FileInfo { name, span: Span { lo: 0, hi: 0 }, lines });
        let r = SourceMap { files };
        assert(as_ints(r.files@[0].lines@) =~= seq![0int]);
        assert(r@ =~= seq![placeholder()]);
        r
    }

    /// The number of registered files, the placeholder included.
    pub fn len(&self) -> (r: usize)
        ensures
            r == self@.len(),
    {
        self.files.len()
    }

    /// Where the next registered file will start: one past the end of the last.
    pub fn next_start_pos(&self) -> (r: u32)
        requires
            self.wf(),
            self.next_lo() <= u32::MAX,
        ensures
            r == self.next_lo(),
    {
        self.files[self.files.len() - 1].span.hi + 1
    }

    /// Registers `src` under `name` and returns the fresh range given to it.
    pub fn add_file(&mut self, name: &str, src: &str) -> (r: Span)
        requires
            old(self).wf(),
            old(self).next_lo() + src@.len() <= u32::MAX,
        ensures
            final(self).wf(),
            r.lo == old(self).next_lo(),
            r.hi == r.lo + src@.len(),
            final(self)@ == old(self)@.push(
                FileRecord { name: name@, span: r, lines: line_starts(src@) },
            ),
    {
        let (len, lines) = lines_offsets(src);
        let lo = self.next_start_pos();
        let span = Span { lo, hi: lo + len as u32 };
        let info = FileInfo { name: String::from_str(name), span, lines };
        let ghost old_view = self@;
        proof { lemma_line_starts_wf(src@); }
        self.files.push(info);
        assert(self@ =~= old_view.push(info@));
        span
    }

    /// Registers `src` as a parsed fragment named after its position in the
    /// registry, and returns its range.
    pub fn register(&mut self, src: &str) -> (r: Span)
        requires
            old(self).wf(),
            old(self).next_lo() + src@.len() <= u32::MAX,
        ensures
            final(self).wf(),
            r.lo == old(self).next_lo(),
            r.hi == r.lo + src@.len(),
            final(self)@ == old(self)@.push(
                FileRecord {
                    name: parsed_name(old(self)@.len()),
                    span: r,
                    lines: line_starts(src@),
                },
            ),
    {
        let mut name = String::from_str("<parsed string ");
        push_digits(&mut name, self.files.len() as u128);
        name.append(">");
        self.add_file(name.as_str(), src)
    }

    /// Whether some registered file holds `span`.
    pub fn contains_span(&self, span: Span) -> (r: bool)
        requires
            self.wf(),
        ensures
            r == self.resolvable(span),
    {
        let mut i: usize = 0;
        while i < self.files.len()
            invariant
                i <= self@.len(),
                forall|j: int| 0 <= j < i ==> !self@[j].span.contains(span),
            decreases self@.len() - i,
        {
            assert(self@[i as int] == self.files@[i as int]@);
            if self.files[i].span.span_within(span) {
                return true;
            }
            i += 1;
        }
        false
    }

    /// Whether a file of `len` characters still fits in the coordinate space.
    pub fn has_room(&self, len: usize) -> (r: bool)
        requires
            self.wf(),
        ensures
            r == (self.next_lo() + len <= u32::MAX),
    {
        let last = self.files[self.files.len() - 1].span.hi as u64;
        assert(last == self@.last().span.hi);
        if last >= u32::MAX as u64 {
            return false;
        }
        len as u64 <= u32::MAX as u64 - last - 1
    }

    /// The index of the first file whose range holds `span`.
    fn fileinfo(&self, span: Span) -> (r: usize)
        requires
            self.wf(),
            self.resolvable(span),
        ensures
            self.owner(span, r as int),
    {
        let mut i: usize = 0;
        while i < self.files.len()
            invariant
                self.wf(),
                self.resolvable(span),
                i <= self@.len(),
                forall|j: int| 0 <= j < i ==> !self@[j].span.contains(span),
            decreases self@.len() - i,
        {
            assert(self@[i as int] == self.files@[i as int]@);
            if self.files[i].span.span_within(span) {
                proof { lemma_owner_unique(self, span, i as int); }
                return i;
            }
            i += 1;
        }
        i
    }
}

/// A position in registered text: what is left to read and its offset in
/// the shared coordinate space.
pub struct Cursor<'a> {
    pub rest: &'a str,
    pub off: u32,
}

/// Registers `src` as a parsed fragment and returns a cursor at its start.
pub fn get_cursor<'a>(map: &mut SourceMap, src: &'a str) -> (r: Cursor<'a>)
    requires
        old(map).wf(),
        old(map).next_lo() + src@.len() <= u32::MAX,
    ensures
        final(map).wf(),
        r.rest@ == src@,
        r.off == old(map).next_lo(),
        final(map)@ == old(map)@.push(
            FileRecord {
                name: parsed_name(old(map)@.len()),
                span: Span { lo: r.off, hi: (r.off + src@.len()) as u32 },
                lines: line_starts(src@),
            },
        ),
{
    let span = map.register(src);
    Cursor { rest: src, off: span.lo }
}

/// The first file that holds a span is the one that `file_index` names.
proof fn lemma_owner_unique(map: &SourceMap, span: Span, i: int)
    requires
        map.owner(span, i),
    ensures
        map.file_index(span) == i,
{
    let k = map.file_index(span);
    assert(map.owner(span, k));
    if k < i {
        assert(!map@[k].span.contains(span));
    } else if k > i {
        assert(!map@[i].span.contains(span));
    }
}

/// In a well-formed registry a well-formed span lies in at most one file, and
/// that file is the one `file_index` names.
pub proof fn lemma_file_of_span(map: &SourceMap, span: Span, i: int)
    requires
        map.wf(),
        span.wf(),
        0 <= i < map@.len(),
        map@[i].span.contains(span),
    ensures
        map.file_index(span) == i,
{
    assert forall|j: int| 0 <= j < i implies !map@[j].span.contains(span) by {
        assert(map@[j].span.hi < map@[i].span.lo);
    }
    assert(map.owner(span, i));
    lemma_owner_unique(map, span, i);
}

/// Joining two well-formed spans gives their enclosing span exactly when both
/// lie in the same registered file, and nothing when they lie in two
/// different files.
pub proof fn lemma_join_same_file(map: &SourceMap, a: Span, b: Span, i: int, j: int)
    requires
        map.wf(),
        a.wf(),
        b.wf(),
        0 <= i < map@.len(),
        0 <= j < map@.len(),
        map@[i].span.contains(a),
        map@[j].span.contains(b),
    ensures
        i == j ==> map.joined(a, b) == Some(Span {
            lo: if a.lo <= b.lo { a.lo } else { b.lo },
            hi: if a.hi >= b.hi { a.hi } else { b.hi },
        }),
        i != j ==> map.joined(a, b) is None,
{
    lemma_file_of_span(map, a, i);
    if i != j {
        if map@[i].span.contains(b) {
            if i < j {
                assert(map@[i].span.hi < map@[j].span.lo);
            } else {
                assert(map@[j].span.hi < map@[i].span.lo);
            }
        }
    }
}

impl Span {
    /// The line and column at which the span starts.
    pub fn start(&self, map: &SourceMap) -> (r: LineColumn)
        requires
            map.wf(),
            self.wf(),
            map.resolvable(*self),
        ensures
            line_column_in(
                map@[map.file_index(*self)].lines,
                self.lo - map@[map.file_index(*self)].span.lo,
                r,
            ),
    {
        let i = map.fileinfo(*self);
        assert(map@[i as int] == map.files@[i as int]@);
        map.files[i].offset_line_column(self.lo as usize)
    }

    /// The line and column at which the span ends.
    pub fn end(&self, map: &SourceMap) -> (r: LineColumn)
        requires
            map.wf(),
            self.wf(),
            map.resolvable(*self),
        ensures
            line_column_in(
                map@[map.file_index(*self)].lines,
                self.hi - map@[map.file_index(*self)].span.lo,
                r,
            ),
    {
        let i = map.fileinfo(*self);
        assert(map@[i as int] == map.files@[i as int]@);
        map.files[i].offset_line_column(self.hi as usize)
    }

    /// The virtual file that holds the span.
    pub fn source_file(&self, map: &SourceMap) -> (r: SourceFile)
        requires
            map.wf(),
            map.resolvable(*self),
        ensures
            r.spec_path() == map@[map.file_index(*self)].name,
    {
        let i = map.fileinfo(*self);
        assert(map@[i as int] == map.files@[i as int]@);
        SourceFile { path: map.files[i].name.clone() }
    }

    /// The smallest span that holds both `self` and `other`, where `other`
    /// lies in the file of `self`; nothing otherwise.
    pub fn join(&self, other: Span, map: &SourceMap) -> (r: Option<Span>)
        requires
            map.wf(),
            map.resolvable(*self),
        ensures
            r == map.joined(*self, other),
    {
        let i = map.fileinfo(*self);
        assert(map@[i as int] == map.files@[i as int]@);
        if !map.files[i].span.span_within(other) {
            return None;
        }
        Some(Span {
            lo: if self.lo <= other.lo { self.lo } else { other.lo },
            hi: if self.hi >= other.hi { self.hi } else { other.hi },
        })
    }
}

proof fn lemma_line_starts_wf(s: Seq<char>)
    ensures
        lines_wf(line_starts(s), s.len() as int),
    decreases s.len(),
{
    if s.len() > 0 {
        lemma_line_starts_wf(s.drop_last());
    }
}

} // verus!
